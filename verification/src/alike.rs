//! Two devices with the same operations compute the same from leaves that hold the same.

use vstd::prelude::*;
use crate::bits::ZERO_BITS;
use crate::graph::{GgmlCpuGraphBuilder, GgmlCpuTensor};
use crate::parity::Device;
use crate::parity_upload::is_leaf;
use crate::tensor_value::{ConvParams, Scalar, TensorValue};

verus! {

/// The devices differ in their leaves alone.
pub open spec fn same_operations(a: Device, b: Device) -> bool {
    &&& a.host == b.host
    &&& a.dot == b.dot
    &&& a.mean == b.mean
    &&& a.square_root == b.square_root
    &&& a.softplus == b.softplus
    &&& a.masked_softmax == b.masked_softmax
    &&& a.arg_max == b.arg_max
}

/// Two tensors on two devices have the same dimensions, and what the one device computes
/// for the one is what the other computes for the other.
#[verifier::opaque]
pub open spec fn alike(a: Device, x: TensorValue, b: Device, y: TensorValue) -> bool {
    &&& same_operations(a, b)
    &&& x.has_shape(y.ne0, y.ne1, y.ne2, y.ne3)
    &&& forall|i0: int, i1: int, i2: int, i3: int|
        a.value(#[trigger] (x.at)(i0, i1, i2, i3)) == b.value((y.at)(i0, i1, i2, i3))
}

/// Lists of equal numbers.
proof fn lemma_lists(a: Device, xs: Seq<Scalar>, b: Device, ys: Seq<Scalar>)
    requires
        xs.len() == ys.len(),
        forall|i: int| 0 <= i < xs.len() ==> a.value(#[trigger] xs[i]) == b.value(ys[i]),
    ensures
        a.values(xs) == b.values(ys),
{
    assert(a.values(xs) =~= b.values(ys));
}

/// Rows of equal numbers.
proof fn lemma_row(a: Device, x: TensorValue, b: Device, y: TensorValue, i1: int, i2: int, i3: int)
    requires
        alike(a, x, b, y),
    ensures
        a.values(x.row(i1, i2, i3)) == b.values(y.row(i1, i2, i3)),
{
    reveal(alike);
    let xs = x.row(i1, i2, i3);
    let ys = y.row(i1, i2, i3);
    assert forall|i: int| 0 <= i < xs.len() implies a.value(#[trigger] xs[i]) == b.value(
        ys[i],
    ) by {
        assert(xs[i] == (x.at)(i, i1, i2, i3));
        assert(ys[i] == (y.at)(i, i1, i2, i3));
    }
    lemma_lists(a, xs, b, ys);
}

/// Sums.
pub broadcast proof fn lemma_plus(
    a: Device,
    x: TensorValue,
    y: TensorValue,
    b: Device,
    u: TensorValue,
    v: TensorValue,
)
    requires
        alike(a, x, b, u),
        alike(a, y, b, v),
    ensures
        #[trigger] alike(a, x.plus(y), b, u.plus(v)),
{
    reveal(alike);
}

/// Differences.
pub broadcast proof fn lemma_minus(
    a: Device,
    x: TensorValue,
    y: TensorValue,
    b: Device,
    u: TensorValue,
    v: TensorValue,
)
    requires
        alike(a, x, b, u),
        alike(a, y, b, v),
    ensures
        #[trigger] alike(a, x.minus(y), b, u.minus(v)),
{
    reveal(alike);
}

/// Products.
pub broadcast proof fn lemma_times(
    a: Device,
    x: TensorValue,
    y: TensorValue,
    b: Device,
    u: TensorValue,
    v: TensorValue,
)
    requires
        alike(a, x, b, u),
        alike(a, y, b, v),
    ensures
        #[trigger] alike(a, x.times(y), b, u.times(v)),
{
    reveal(alike);
}

/// Quotients.
pub broadcast proof fn lemma_over(
    a: Device,
    x: TensorValue,
    y: TensorValue,
    b: Device,
    u: TensorValue,
    v: TensorValue,
)
    requires
        alike(a, x, b, u),
        alike(a, y, b, v),
    ensures
        #[trigger] alike(a, x.over(y), b, u.over(v)),
{
    reveal(alike);
}

/// Squares.
pub broadcast proof fn lemma_squared(a: Device, x: TensorValue, b: Device, u: TensorValue)
    requires
        alike(a, x, b, u),
    ensures
        #[trigger] alike(a, x.squared(), b, u.squared()),
{
    reveal(alike);
}

/// Square roots.
pub broadcast proof fn lemma_square_root(a: Device, x: TensorValue, b: Device, u: TensorValue)
    requires
        alike(a, x, b, u),
    ensures
        #[trigger] alike(a, x.square_root(), b, u.square_root()),
{
    reveal(alike);
}

/// Softplus.
pub broadcast proof fn lemma_softplus(a: Device, x: TensorValue, b: Device, u: TensorValue)
    requires
        alike(a, x, b, u),
    ensures
        #[trigger] alike(a, x.softplus(), b, u.softplus()),
{
    reveal(alike);
}

/// Sigmoids.
pub broadcast proof fn lemma_sigmoid(a: Device, x: TensorValue, b: Device, u: TensorValue)
    requires
        alike(a, x, b, u),
    ensures
        #[trigger] alike(a, x.sigmoid(), b, u.sigmoid()),
{
    reveal(alike);
}

/// Hyperbolic tangents.
pub broadcast proof fn lemma_tanh(a: Device, x: TensorValue, b: Device, u: TensorValue)
    requires
        alike(a, x, b, u),
    ensures
        #[trigger] alike(a, x.tanh(), b, u.tanh()),
{
    reveal(alike);
}

/// Copies.
pub broadcast proof fn lemma_cont(a: Device, x: TensorValue, b: Device, u: TensorValue)
    requires
        alike(a, x, b, u),
    ensures
        #[trigger] alike(a, x.cont(), b, u.cont()),
{
    reveal(alike);
}

/// Exchanged axes.
pub broadcast proof fn lemma_transposed(a: Device, x: TensorValue, b: Device, u: TensorValue)
    requires
        alike(a, x, b, u),
    ensures
        #[trigger] alike(a, x.transposed(), b, u.transposed()),
{
    reveal(alike);
}

/// Multiples.
pub broadcast proof fn lemma_scaled(
    a: Device,
    x: TensorValue,
    b: Device,
    u: TensorValue,
    factor: u32,
)
    requires
        alike(a, x, b, u),
    ensures
        #[trigger] alike(a, x.scaled(factor), b, u.scaled(factor)),
{
    reveal(alike);
}

/// Multiples by an exponential.
pub broadcast proof fn lemma_scaled_by_exp(
    a: Device,
    x: TensorValue,
    b: Device,
    u: TensorValue,
    exponent: u32,
)
    requires
        alike(a, x, b, u),
    ensures
        #[trigger] alike(a, x.scaled_by_exp(exponent), b, u.scaled_by_exp(exponent)),
{
    reveal(alike);
}

/// Means of rows.
pub broadcast proof fn lemma_mean_rows(a: Device, x: TensorValue, b: Device, u: TensorValue)
    requires
        alike(a, x, b, u),
    ensures
        #[trigger] alike(a, x.mean_rows(), b, u.mean_rows()),
{
    reveal(alike);
    assert forall|i0: int, i1: int, i2: int, i3: int|
        a.value(#[trigger] (x.mean_rows().at)(i0, i1, i2, i3)) == b.value(
            (u.mean_rows().at)(i0, i1, i2, i3),
        ) by {
        lemma_row(a, x, b, u, i1, i2, i3);
    }
}

/// Inner products of rows.
pub broadcast proof fn lemma_mul_mat(
    a: Device,
    x: TensorValue,
    y: TensorValue,
    b: Device,
    u: TensorValue,
    v: TensorValue,
)
    requires
        alike(a, x, b, u),
        alike(a, y, b, v),
    ensures
        #[trigger] alike(a, x.mul_mat(y), b, u.mul_mat(v)),
{
    reveal(alike);
    assert forall|i0: int, i1: int, i2: int, i3: int|
        a.value(#[trigger] (x.mul_mat(y).at)(i0, i1, i2, i3)) == b.value(
            (u.mul_mat(v).at)(i0, i1, i2, i3),
        ) by {
        lemma_row(a, x, b, u, i0, i2 / (y.ne2 / x.ne2), i3 / (y.ne3 / x.ne3));
        lemma_row(a, y, b, v, i1, i2, i3);
    }
}

/// Softmax along rows, with a mask.
pub broadcast proof fn lemma_soft_max(
    a: Device,
    x: TensorValue,
    y: TensorValue,
    b: Device,
    u: TensorValue,
    v: TensorValue,
    scale: u32,
    max_bias: u32,
)
    requires
        alike(a, x, b, u),
        alike(a, y, b, v),
    ensures
        #[trigger] alike(
            a,
            x.soft_max(Some(y), scale, max_bias),
            b,
            u.soft_max(Some(v), scale, max_bias),
        ),
{
    reveal(alike);
    assert forall|i0: int, i1: int, i2: int, i3: int|
        a.value(#[trigger] (x.soft_max(Some(y), scale, max_bias).at)(i0, i1, i2, i3))
            == b.value((u.soft_max(Some(v), scale, max_bias).at)(i0, i1, i2, i3)) by {
        lemma_row(a, x, b, u, i1, i2, i3);
        let ys = Seq::new(x.ne0 as nat, |j0: int| y.repeated(j0, i1, i2, i3));
        let vs = Seq::new(u.ne0 as nat, |j0: int| v.repeated(j0, i1, i2, i3));
        assert forall|i: int| 0 <= i < ys.len() implies a.value(#[trigger] ys[i]) == b.value(
            vs[i],
        ) by {
            assert(ys[i] == y.repeated(i, i1, i2, i3));
            assert(vs[i] == v.repeated(i, i1, i2, i3));
        }
        lemma_lists(a, ys, b, vs);
    }
}

/// The same elements under other dimensions.
pub broadcast proof fn lemma_reshaped(
    a: Device,
    x: TensorValue,
    b: Device,
    u: TensorValue,
    ne0: int,
    ne1: int,
    ne2: int,
    ne3: int,
)
    requires
        alike(a, x, b, u),
    ensures
        #[trigger] alike(a, x.reshaped(ne0, ne1, ne2, ne3), b, u.reshaped(ne0, ne1, ne2, ne3)),
{
    reveal(alike);
}

/// Elements picked by strides.
pub broadcast proof fn lemma_strided(
    a: Device,
    x: TensorValue,
    b: Device,
    u: TensorValue,
    ne0: int,
    ne1: int,
    ne2: int,
    ne3: int,
    nb1: int,
    nb2: int,
    nb3: int,
    offset: int,
)
    requires
        alike(a, x, b, u),
    ensures
        #[trigger] alike(
            a,
            x.strided(ne0, ne1, ne2, ne3, nb1, nb2, nb3, offset),
            b,
            u.strided(ne0, ne1, ne2, ne3, nb1, nb2, nb3, offset),
        ),
{
    reveal(alike);
}

/// One after the other.
pub broadcast proof fn lemma_concat(
    a: Device,
    x: TensorValue,
    y: TensorValue,
    b: Device,
    u: TensorValue,
    v: TensorValue,
    dim: int,
)
    requires
        alike(a, x, b, u),
        alike(a, y, b, v),
    ensures
        #[trigger] alike(a, x.concat(y, dim), b, u.concat(v, dim)),
{
    reveal(alike);
}

/// Convolutions that keep channels apart.
pub broadcast proof fn lemma_depthwise(
    a: Device,
    x: TensorValue,
    y: TensorValue,
    b: Device,
    u: TensorValue,
    v: TensorValue,
    p: ConvParams,
)
    requires
        alike(a, x, b, u),
        alike(a, y, b, v),
    ensures
        #[trigger] alike(a, x.depthwise_conv_2d(y, p), b, u.depthwise_conv_2d(v, p)),
{
    reveal(alike);
    let xy = x.depthwise_conv_2d(y, p);
    let uv = u.depthwise_conv_2d(v, p);
    assert forall|ow: int, oh: int, c: int, n: int|
        a.value(#[trigger] (xy.at)(ow, oh, c, n)) == b.value((uv.at)(ow, oh, c, n)) by {
        let len = (x.ne0 * x.ne1) as nat;
        let xs = Seq::new(len, |k: int| (x.at)(k % x.ne0, k / x.ne0, 0, c));
        let us = Seq::new(len, |k: int| (u.at)(k % u.ne0, k / u.ne0, 0, c));
        assert forall|k: int| 0 <= k < xs.len() implies a.value(#[trigger] xs[k]) == b.value(
            us[k],
        ) by {
            assert(xs[k] == (x.at)(k % x.ne0, k / x.ne0, 0, c));
            assert(us[k] == (u.at)(k % u.ne0, k / u.ne0, 0, c));
        }
        lemma_lists(a, xs, b, us);
        let ys = Seq::new(
            len,
            |k: int|
                y.padded(
                    ow * p.stride_w + (k % x.ne0) * p.dilation_w - p.pad_w,
                    oh * p.stride_h + (k / x.ne0) * p.dilation_h - p.pad_h,
                    c,
                    n,
                ),
        );
        let vs = Seq::new(
            len,
            |k: int|
                v.padded(
                    ow * p.stride_w + (k % u.ne0) * p.dilation_w - p.pad_w,
                    oh * p.stride_h + (k / u.ne0) * p.dilation_h - p.pad_h,
                    c,
                    n,
                ),
        );
        assert forall|k: int| 0 <= k < ys.len() implies a.value(#[trigger] ys[k]) == b.value(
            vs[k],
        ) by {
            let w = ow * p.stride_w + (k % x.ne0) * p.dilation_w - p.pad_w;
            let h = oh * p.stride_h + (k / x.ne0) * p.dilation_h - p.pad_h;
            assert(ys[k] == y.padded(w, h, c, n));
            assert(vs[k] == v.padded(w, h, c, n));
            assert(a.value((y.at)(w, h, c, n)) == b.value((v.at)(w, h, c, n)));
        }
        lemma_lists(a, ys, b, vs);
        assert((xy.at)(ow, oh, c, n) == Scalar::Dot(xs, ys));
        assert((uv.at)(ow, oh, c, n) == Scalar::Dot(us, vs));
    }
}

pub broadcast group group_alike {
    lemma_plus,
    lemma_minus,
    lemma_times,
    lemma_over,
    lemma_squared,
    lemma_square_root,
    lemma_softplus,
    lemma_sigmoid,
    lemma_tanh,
    lemma_cont,
    lemma_transposed,
    lemma_scaled,
    lemma_scaled_by_exp,
    lemma_mean_rows,
    lemma_mul_mat,
    lemma_soft_max,
    lemma_reshaped,
    lemma_strided,
    lemma_concat,
    lemma_depthwise,
}

impl Device {
    /// Outside its leaves the device reads zeros.
    pub open spec fn zero_outside(self, graph: GgmlCpuGraphBuilder) -> bool {
        forall|tensor: int, i0: int, i1: int, i2: int, i3: int|
            !graph@[tensor].inside(i0, i1, i2, i3) ==> #[trigger] (self.leaves)(
                tensor,
                i0,
                i1,
                i2,
                i3,
            ) == ZERO_BITS
    }
}

impl TensorValue {
    /// The position is one of the tensor.
    pub open spec fn inside(self, i0: int, i1: int, i2: int, i3: int) -> bool {
        0 <= i0 < self.ne0 && 0 <= i1 < self.ne1 && 0 <= i2 < self.ne2 && 0 <= i3 < self.ne3
    }
}

/// Leaves that hold the same.
proof fn lemma_leaves(
    a: Device,
    g: GgmlCpuGraphBuilder,
    s: GgmlCpuTensor,
    b: Device,
    h: GgmlCpuGraphBuilder,
    t: GgmlCpuTensor,
    ne0: int,
    ne1: int,
    ne2: int,
)
    requires
        same_operations(a, b),
        a.zero_outside(g),
        b.zero_outside(h),
        is_leaf(g, s, ne0, ne1, ne2),
        is_leaf(h, t, ne0, ne1, ne2),
        forall|i0: int, i1: int, i2: int, i3: int|
            g.value(s).inside(i0, i1, i2, i3) ==> a.value(
                #[trigger] (g.value(s).at)(i0, i1, i2, i3),
            ) == b.value((h.value(t).at)(i0, i1, i2, i3)),
    ensures
        alike(a, g.value(s), b, h.value(t)),
{
    reveal(alike);
    let x = g.value(s);
    let y = h.value(t);
    assert forall|i0: int, i1: int, i2: int, i3: int|
        a.value(#[trigger] (x.at)(i0, i1, i2, i3)) == b.value((y.at)(i0, i1, i2, i3)) by {
        assert(a.value((x.at)(i0, i1, i2, i3)) == (a.leaves)(s.id as int, i0, i1, i2, i3));
        assert(b.value((y.at)(i0, i1, i2, i3)) == (b.leaves)(t.id as int, i0, i1, i2, i3));
        if !x.inside(i0, i1, i2, i3) {
            assert(!y.inside(i0, i1, i2, i3));
            assert(!g@[s.id as int].inside(i0, i1, i2, i3));
            assert(!h@[t.id as int].inside(i0, i1, i2, i3));
        }
    }
}

/// Leaves that hold the same rows.
pub proof fn lemma_same_rows(
    a: Device,
    g: GgmlCpuGraphBuilder,
    s: GgmlCpuTensor,
    b: Device,
    h: GgmlCpuGraphBuilder,
    t: GgmlCpuTensor,
    rows: Seq<u32>,
    dim: int,
    frames: int,
)
    requires
        same_operations(a, b),
        a.zero_outside(g),
        b.zero_outside(h),
        is_leaf(g, s, dim, frames, 1),
        is_leaf(h, t, dim, frames, 1),
        a.holds(g.value(s), rows, dim, frames),
        b.holds(h.value(t), rows, dim, frames),
    ensures
        alike(a, g.value(s), b, h.value(t)),
{
    lemma_leaves(a, g, s, b, h, t, dim, frames, 1);
}

/// Leaves that hold the same list.
pub proof fn lemma_same_list(
    a: Device,
    g: GgmlCpuGraphBuilder,
    s: GgmlCpuTensor,
    b: Device,
    h: GgmlCpuGraphBuilder,
    t: GgmlCpuTensor,
    entries: Seq<u32>,
)
    requires
        same_operations(a, b),
        a.zero_outside(g),
        b.zero_outside(h),
        is_leaf(g, s, entries.len() as int, 1, 1),
        is_leaf(h, t, entries.len() as int, 1, 1),
        a.holds_list(g.value(s), entries),
        b.holds_list(h.value(t), entries),
    ensures
        alike(a, g.value(s), b, h.value(t)),
{
    lemma_leaves(a, g, s, b, h, t, entries.len() as int, 1, 1);
}

/// Leaves that hold the same kernels.
pub proof fn lemma_same_channels(
    a: Device,
    g: GgmlCpuGraphBuilder,
    s: GgmlCpuTensor,
    b: Device,
    h: GgmlCpuGraphBuilder,
    t: GgmlCpuTensor,
    entries: Seq<u32>,
    len: int,
    channels: int,
)
    requires
        same_operations(a, b),
        a.zero_outside(g),
        b.zero_outside(h),
        is_leaf(g, s, len, 1, channels),
        is_leaf(h, t, len, 1, channels),
        a.holds_channels(g.value(s), entries, len, channels),
        b.holds_channels(h.value(t), entries, len, channels),
    ensures
        alike(a, g.value(s), b, h.value(t)),
{
    lemma_leaves(a, g, s, b, h, t, len, 1, channels);
}

} // verus!
