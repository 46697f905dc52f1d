//! The embedding of feature rows on the host.

use vstd::prelude::*;
use vstd::string::StringExecFns;
use crate::decoder::text_outcome;
use crate::encoder_weights::XasrConv2dWeights;
use crate::float_ops;
use crate::float_ops::{mul_add, mul_add_of, FloatModel, FloatOps};
use crate::reference_conv::{grid, lemma_is_grid};
use crate::reference_rows::{lemma_index, lemma_split, swooshed_l, swooshed_r};
use crate::text;
use crate::text::{bracketed, decimal};

verus! {

/// `n` items of `c` planes of `h` rows of `w` values.
#[derive(Clone, Debug, PartialEq)]
pub struct Tensor4 {
    pub data: Vec<u32>,
    pub n: usize,
    pub c: usize,
    pub h: usize,
    pub w: usize,
}

/// `n` items of `c` planes of `h` rows of `w` values.
pub struct Volume {
    pub data: Seq<u32>,
    pub n: int,
    pub c: int,
    pub h: int,
    pub w: int,
}

impl Volume {
    /// A volume holds as many values as its sizes say.
    pub open spec fn wf(self) -> bool {
        &&& 0 <= self.n
        &&& 0 <= self.c
        &&& 0 <= self.h
        &&& 0 <= self.w
        &&& self.data.len() == self.n * self.c * self.h * self.w
    }

    /// The value at a place.
    pub open spec fn at(self, n: int, c: int, h: int, w: int) -> u32 {
        self.data[((n * self.c + c) * self.h + h) * self.w + w]
    }

    /// The values, each through the right activation.
    pub open spec fn swooshed_r(self, m: FloatModel) -> Volume {
        Volume { data: swooshed_r(m, self.data), ..self }
    }

    /// The values, each through the left activation.
    pub open spec fn swooshed_l(self, m: FloatModel) -> Volume {
        Volume { data: swooshed_l(m, self.data), ..self }
    }
}

impl Tensor4 {
    /// The tensor by its contents.
    pub open spec fn volume(self) -> Volume {
        Volume {
            data: self.data@,
            n: self.n as int,
            c: self.c as int,
            h: self.h as int,
            w: self.w as int,
        }
    }
}

/// A place lies within a volume.
proof fn lemma_place(v: Volume, n: int, c: int, h: int, w: int)
    requires
        v.wf(),
        0 <= n < v.n,
        0 <= c < v.c,
        0 <= h < v.h,
        0 <= w < v.w,
    ensures
        0 <= n * v.c + c < v.n * v.c,
        0 <= (n * v.c + c) * v.h + h < v.n * v.c * v.h,
        0 <= ((n * v.c + c) * v.h + h) * v.w + w < v.data.len(),
        n * v.c + c <= (n * v.c + c) * v.h,
        (n * v.c + c) * v.h + h <= ((n * v.c + c) * v.h + h) * v.w,
{
    lemma_index(n, v.n, c, v.c);
    let plane = n * v.c + c;
    lemma_index(plane, v.n * v.c, h, v.h);
    let row = plane * v.h + h;
    lemma_index(row, v.n * v.c * v.h, w, v.w);
    assert(plane <= plane * v.h && row <= row * v.w) by (nonlinear_arith)
        requires
            0 <= plane,
            0 <= row,
            1 <= v.h,
            1 <= v.w,
    ;
}

/// A kernel slides by these steps over input with these margins.
pub struct Sliding {
    pub stride_h: usize,
    pub stride_w: usize,
    pub pad_top: usize,
    pub pad_left: usize,
    pub pad_bottom: usize,
    pub pad_right: usize,
    pub groups: usize,
}

impl Sliding {
    /// The height with the margins.
    pub open spec fn padded_h(self, h: int) -> int {
        h + self.pad_top + self.pad_bottom
    }

    /// The width with the margins.
    pub open spec fn padded_w(self, w: int) -> int {
        w + self.pad_left + self.pad_right
    }

    /// The height of the output.
    pub open spec fn out_h(self, h: int, weights: XasrConv2dWeights) -> int {
        (self.padded_h(h) - weights.weight.dims@[1]) / self.stride_h as int + 1
    }

    /// The width of the output.
    pub open spec fn out_w(self, w: int, weights: XasrConv2dWeights) -> int {
        (self.padded_w(w) - weights.weight.dims@[0]) / self.stride_w as int + 1
    }

    /// Why a convolution is refused.
    pub open spec fn refusal(self, c: int, h: int, w: int, weights: XasrConv2dWeights) -> Option<
        Seq<char>,
    > {
        let dims = weights.weight.dims@;
        let name = weights.weight.name@;
        if dims.len() != 4 {
            Some("xasr conv2d '"@ + name + "' expected rank 4, got "@ + bracketed(dims))
        } else if self.groups == 0 || c % self.groups as int != 0 || dims[3] % self.groups != 0 {
            Some(
                "xasr conv2d '"@ + name + "' invalid groups "@ + decimal(self.groups as nat)
                    + " for input "@ + decimal(c as nat) + " output "@ + decimal(dims[3] as nat),
            )
        } else if c / self.groups as int != dims[2] {
            Some(
                "xasr conv2d '"@ + name + "' has in_per_group "@ + decimal(dims[2] as nat)
                    + ", expected "@ + decimal((c / self.groups as int) as nat),
            )
        } else if self.padded_h(h) < dims[1] || self.padded_w(w) < dims[0] {
            Some(
                "xasr conv2d '"@ + name + "' kernel ["@ + decimal(dims[1] as nat) + ","@ + decimal(
                    dims[0] as nat,
                ) + "] exceeds padded input ["@ + decimal(self.padded_h(h) as nat) + ","@ + decimal(
                    self.padded_w(w) as nat,
                ) + "]"@,
            )
        } else {
            None
        }
    }

    /// The sum of the first `k` taps for an output value, those that fall into
    /// the margins left out.
    pub open spec fn taps(
        self,
        m: FloatModel,
        input: Volume,
        weights: XasrConv2dWeights,
        n: int,
        oc: int,
        oh: int,
        ow: int,
        k: int,
    ) -> u32
        decreases k,
    {
        let kernel_w = weights.weight.dims@[0] as int;
        let kernel_h = weights.weight.dims@[1] as int;
        let in_per_group = weights.weight.dims@[2] as int;
        let out_per_group = weights.weight.dims@[3] as int / self.groups as int;
        if k <= 0 {
            weights.bias@[oc]
        } else {
            let before = self.taps(m, input, weights, n, oc, oh, ow, k - 1);
            let tap = k - 1;
            let ic = (oc / out_per_group) * in_per_group + (tap / kernel_w) / kernel_h;
            let ih = oh * self.stride_h + (tap / kernel_w) % kernel_h - self.pad_top;
            let iw = ow * self.stride_w + tap % kernel_w - self.pad_left;
            if 0 <= ih < input.h && 0 <= iw < input.w {
                mul_add_of(
                    m,
                    before,
                    input.at(n, ic, ih, iw),
                    weights.weight.values@[oc * (in_per_group * kernel_h * kernel_w) + tap],
                )
            } else {
                before
            }
        }
    }

    /// The output of a convolution.
    pub open spec fn output(
        self,
        m: FloatModel,
        input: Volume,
        weights: XasrConv2dWeights,
    ) -> Volume {
        let dims = weights.weight.dims@;
        let taps = dims[2] * dims[1] * dims[0];
        let out_c = dims[3] as int;
        let out_h = self.out_h(input.h, weights);
        let out_w = self.out_w(input.w, weights);
        Volume {
            data: grid(
                input.n * out_c * out_h,
                out_w,
                |r: int, ow: int|
                    self.taps(
                        m,
                        input,
                        weights,
                        (r / out_h) / out_c,
                        (r / out_h) % out_c,
                        r % out_h,
                        ow,
                        taps,
                    ),
            ),
            n: input.n,
            c: out_c,
            h: out_h,
            w: out_w,
        }
    }

    /// The output of a convolution, or why there is none.
    pub open spec fn convolved(
        self,
        m: FloatModel,
        input: Volume,
        weights: XasrConv2dWeights,
    ) -> Result<
        Volume,
        Seq<char>,
    > {
        match self.refusal(input.c, input.h, input.w, weights) {
            Some(reason) => Err(reason),
            None => Ok(self.output(m, input, weights)),
        }
    }

    /// A convolution can run on input of these sizes: its own sizes can be
    /// counted, and it holds the values that it reads.
    pub open spec fn can_run(
        self,
        n: int,
        c: int,
        h: int,
        w: int,
        weights: XasrConv2dWeights,
    ) -> bool {
        let dims = weights.weight.dims@;
        let out_h = self.out_h(h, weights);
        let out_w = self.out_w(w, weights);
        &&& self.stride_h > 0
        &&& self.stride_w > 0
        &&& self.padded_h(h) < usize::MAX
        &&& self.padded_w(w) < usize::MAX
        &&& dims.len() == 4 && self.refusal(c, h, w, weights) is None ==> {
            &&& n * dims[3] <= usize::MAX
            &&& n * dims[3] * out_h <= usize::MAX
            &&& n * dims[3] * out_h * out_w <= usize::MAX
            &&& dims[2] * dims[1] <= usize::MAX
            &&& dims[2] * dims[1] * dims[0] <= usize::MAX
            &&& weights.bias@.len() >= dims[3]
            &&& weights.weight.values@.len() >= dims[3] * (dims[2] * dims[1] * dims[0])
        }
    }
}

/// The channel group of an output channel lies within the input.
proof fn lemma_channel_group(oc: int, out_c: int, groups: int, c: int, per_group: int, icg: int)
    requires
        0 <= oc < out_c,
        0 < groups,
        out_c % groups == 0,
        c % groups == 0,
        per_group == c / groups,
        0 <= icg < per_group,
    ensures
        out_c / groups > 0,
        0 <= (oc / (out_c / groups)) * per_group,
        0 <= (oc / (out_c / groups)) * per_group + icg < c,
{
    let out_per_group = out_c / groups;
    vstd::arithmetic::div_mod::lemma_fundamental_div_mod(out_c, groups);
    vstd::arithmetic::div_mod::lemma_fundamental_div_mod(c, groups);
    assert(groups * per_group == c);
    assert(out_c == groups * out_per_group);
    assert(groups * out_per_group == out_per_group * groups) by (nonlinear_arith);
    assert(out_per_group >= 0) by {
        vstd::arithmetic::div_mod::lemma_div_pos_is_pos(out_c, groups);
    }
    lemma_split(oc, groups, out_per_group);
    lemma_index(oc / out_per_group, groups, icg, per_group);
}

#[verifier::spinoff_prover]
fn sum_taps<O: FloatOps>(
    ops: &O,
    sliding: &Sliding,
    input: &Tensor4,
    weights: &XasrConv2dWeights,
    n: usize,
    oc: usize,
    oh: usize,
    ow: usize,
    taps: usize,
) -> (sum: u32)
    requires
        input.volume().wf(),
        n < input.n,
        weights.weight.dims@.len() == 4,
        sliding.can_run(
            input.n as int,
            input.c as int,
            input.h as int,
            input.w as int,
            *weights,
        ),
        sliding.refusal(input.c as int, input.h as int, input.w as int, *weights) is None,
        oc < weights.weight.dims@[3],
        oh < sliding.out_h(input.h as int, *weights),
        ow < sliding.out_w(input.w as int, *weights),
        taps == weights.weight.dims@[2] * weights.weight.dims@[1] * weights.weight.dims@[0],
    ensures
        float_ops::functional(ops) ==> sum == sliding.taps(
            float_ops::model(ops),
            input.volume(),
            *weights,
            n as int,
            oc as int,
            oh as int,
            ow as int,
            taps as int,
        ),
{
    let kernel_w = weights.weight.dims[0];
    let kernel_h = weights.weight.dims[1];
    let in_per_group = weights.weight.dims[2];
    let out_channels = weights.weight.dims[3];
    let out_per_group = out_channels / sliding.groups;
    proof {
        lemma_reach(
            oh as int,
            sliding.padded_h(input.h as int),
            kernel_h as int,
            sliding.stride_h as int,
        );
        lemma_reach(
            ow as int,
            sliding.padded_w(input.w as int),
            kernel_w as int,
            sliding.stride_w as int,
        );
    }
    let top = oh * sliding.stride_h;
    let left = ow * sliding.stride_w;
    let mut sum = weights.bias[oc];
    let mut k: usize = 0;
    assert(weights.weight.values.len() == weights.weight.values@.len());
    assert(input.data.len() == input.data@.len());
    while k < taps
        invariant
            k <= taps,
            taps == in_per_group * kernel_h * kernel_w,
            in_per_group * kernel_h <= usize::MAX,
            input.volume().wf(),
            input.data@.len() <= usize::MAX,
            n < input.n,
            weights.weight.dims@.len() == 4,
            kernel_w == weights.weight.dims@[0],
            kernel_h == weights.weight.dims@[1],
            in_per_group == weights.weight.dims@[2],
            out_channels == weights.weight.dims@[3],
            sliding.groups > 0,
            input.c % sliding.groups == 0,
            out_channels % sliding.groups == 0,
            input.c / sliding.groups == in_per_group,
            out_per_group == out_channels / sliding.groups,
            oc < out_channels,
            top == oh * sliding.stride_h,
            left == ow * sliding.stride_w,
            top + kernel_h <= sliding.padded_h(input.h as int) < usize::MAX,
            left + kernel_w <= sliding.padded_w(input.w as int) < usize::MAX,
            weights.weight.values@.len() >= out_channels * taps,
            weights.weight.values@.len() <= usize::MAX,
            float_ops::functional(ops) ==> sum == sliding.taps(
                float_ops::model(ops),
                input.volume(),
                *weights,
                n as int,
                oc as int,
                oh as int,
                ow as int,
                k as int,
            ),
        decreases taps - k,
    {
        proof {
            lemma_split(k as int, in_per_group * kernel_h, kernel_w as int);
            lemma_split(k as int / kernel_w as int, in_per_group as int, kernel_h as int);
        }
        let line = k / kernel_w;
        let icg = line / kernel_h;
        let kh = line % kernel_h;
        let kw = k % kernel_w;
        let ih_padded = top + kh;
        let iw_padded = left + kw;
        if ih_padded >= sliding.pad_top && iw_padded >= sliding.pad_left {
            let ih = ih_padded - sliding.pad_top;
            let iw = iw_padded - sliding.pad_left;
            if ih < input.h && iw < input.w {
                proof {
                    lemma_channel_group(
                        oc as int,
                        out_channels as int,
                        sliding.groups as int,
                        input.c as int,
                        in_per_group as int,
                        icg as int,
                    );
                }
                let ic = (oc / out_per_group) * in_per_group + icg;
                proof {
                    lemma_place(input.volume(), n as int, ic as int, ih as int, iw as int);
                    lemma_index(oc as int, out_channels as int, k as int, taps as int);
                }
                let place = ((n * input.c + ic) * input.h + ih) * input.w + iw;
                sum = mul_add(ops, sum, input.data[place], weights.weight.values[oc * taps + k]);
            }
        }
        k = k + 1;
    }
    sum
}

/// The last place of a sliding kernel still lies within the input.
proof fn lemma_reach(place: int, padded: int, kernel: int, stride: int)
    requires
        0 <= kernel <= padded,
        0 < stride,
        0 <= place < (padded - kernel) / stride + 1,
    ensures
        0 <= place * stride,
        place * stride + kernel <= padded,
{
    vstd::arithmetic::div_mod::lemma_fundamental_div_mod(padded - kernel, stride);
    let last = (padded - kernel) / stride;
    let rest = (padded - kernel) % stride;
    assert(0 <= place * stride && place * stride <= padded - kernel) by (nonlinear_arith)
        requires
            padded - kernel == stride * last + rest,
            0 <= rest,
            0 <= place <= last,
            0 < stride,
    ;
}

/// Convolves a tensor.
#[verifier::spinoff_prover]
#[verifier::rlimit(40)]
pub fn conv2d_nchw<O: FloatOps>(
    ops: &O,
    input: &Tensor4,
    weights: &XasrConv2dWeights,
    sliding: &Sliding,
) -> (result: Result<Tensor4, String>)
    requires
        input.volume().wf(),
        sliding.can_run(
            input.n as int,
            input.c as int,
            input.h as int,
            input.w as int,
            *weights,
        ),
    ensures
        text_outcome(
            result,
            sliding.refusal(input.c as int, input.h as int, input.w as int, *weights),
        ),
        result is Ok ==> {
            &&& result->Ok_0.volume().wf()
            &&& result->Ok_0.n == input.n
            &&& result->Ok_0.c == weights.weight.dims@[3]
            &&& result->Ok_0.h == sliding.out_h(input.h as int, *weights)
            &&& result->Ok_0.w == sliding.out_w(input.w as int, *weights)
        },
        result is Ok && float_ops::functional(ops) ==> result->Ok_0.volume() == sliding.output(
            float_ops::model(ops),
            input.volume(),
            *weights,
        ),
{
    let mut reason = text::copy_text("xasr conv2d '");
    reason.append(weights.weight.name.as_str());
    let dims = &weights.weight.dims;
    if dims.len() != 4 {
        reason.append("' expected rank 4, got ");
        text::push_bracketed(&mut reason, dims.as_slice());
        return Err(reason);
    }
    let kernel_w = dims[0];
    let kernel_h = dims[1];
    let in_per_group = dims[2];
    let out_channels = dims[3];
    let groups = sliding.groups;
    if groups == 0 || input.c % groups != 0 || out_channels % groups != 0 {
        reason.append("' invalid groups ");
        text::push_number(&mut reason, groups);
        reason.append(" for input ");
        text::push_number(&mut reason, input.c);
        reason.append(" output ");
        text::push_number(&mut reason, out_channels);
        return Err(reason);
    }
    if input.c / groups != in_per_group {
        reason.append("' has in_per_group ");
        text::push_number(&mut reason, in_per_group);
        reason.append(", expected ");
        text::push_number(&mut reason, input.c / groups);
        return Err(reason);
    }
    let padded_h = input.h + sliding.pad_top + sliding.pad_bottom;
    let padded_w = input.w + sliding.pad_left + sliding.pad_right;
    if padded_h < kernel_h || padded_w < kernel_w {
        reason.append("' kernel [");
        text::push_number(&mut reason, kernel_h);
        reason.append(",");
        text::push_number(&mut reason, kernel_w);
        reason.append("] exceeds padded input [");
        text::push_number(&mut reason, padded_h);
        reason.append(",");
        text::push_number(&mut reason, padded_w);
        reason.append("]");
        return Err(reason);
    }
    proof {
        vstd::arithmetic::div_mod::lemma_div_is_ordered_by_denominator(
            padded_h - kernel_h,
            1,
            sliding.stride_h as int,
        );
        vstd::arithmetic::div_mod::lemma_div_is_ordered_by_denominator(
            padded_w - kernel_w,
            1,
            sliding.stride_w as int,
        );
        vstd::arithmetic::div_mod::lemma_div_pos_is_pos(
            padded_h - kernel_h,
            sliding.stride_h as int,
        );
        vstd::arithmetic::div_mod::lemma_div_pos_is_pos(
            padded_w - kernel_w,
            sliding.stride_w as int,
        );
    }
    let out_h = (padded_h - kernel_h) / sliding.stride_h + 1;
    let out_w = (padded_w - kernel_w) / sliding.stride_w + 1;
    let ghost m = float_ops::model(ops);
    let taps = in_per_group * kernel_h * kernel_w;
    let count = input.n * out_channels * out_h;
    let ghost at = |r: int, ow: int|
        sliding.taps(
            m,
            input.volume(),
            *weights,
            (r / (out_h as int)) / (out_channels as int),
            (r / (out_h as int)) % (out_channels as int),
            r % (out_h as int),
            ow,
            taps as int,
        );
    let mut data: Vec<u32> = Vec::new();
    let mut row: usize = 0;
    assert(0 * out_w == 0) by (nonlinear_arith);
    while row < count
        invariant
            row <= count,
            count == input.n * out_channels * out_h,
            input.volume().wf(),
            weights.weight.dims@.len() == 4,
            sliding.can_run(
                input.n as int,
                input.c as int,
                input.h as int,
                input.w as int,
                *weights,
            ),
            sliding.refusal(input.c as int, input.h as int, input.w as int, *weights) is None,
            out_channels == weights.weight.dims@[3],
            out_h == sliding.out_h(input.h as int, *weights),
            out_w == sliding.out_w(input.w as int, *weights),
            taps == weights.weight.dims@[2] * weights.weight.dims@[1] * weights.weight.dims@[0],
            m == float_ops::model(ops),
            at == (|r: int, ow: int|
                sliding.taps(
                    m,
                    input.volume(),
                    *weights,
                    (r / (out_h as int)) / (out_channels as int),
                    (r / (out_h as int)) % (out_channels as int),
                    r % (out_h as int),
                    ow,
                    taps as int,
                )),
            data@.len() == row * out_w,
            float_ops::functional(ops) ==> forall|i: int|
                0 <= i < row * out_w ==> #[trigger] data@[i] == at(
                    i / out_w as int,
                    i % out_w as int,
                ),
        decreases count - row,
    {
        proof {
            lemma_split(row as int, input.n * out_channels, out_h as int);
            lemma_split(row as int / out_h as int, input.n as int, out_channels as int);
            assert(row * out_w + out_w == (row + 1) * out_w) by (nonlinear_arith);
        }
        let plane = row / out_h;
        let oh = row % out_h;
        let n = plane / out_channels;
        let oc = plane % out_channels;
        let mut ow: usize = 0;
        while ow < out_w
            invariant
                ow <= out_w,
                row < count,
                count == input.n * out_channels * out_h,
                plane == row / out_h,
                oh == row % out_h,
                n == plane / out_channels,
                oc == plane % out_channels,
                n < input.n,
                oc < out_channels,
                oh < out_h,
                out_h > 0,
                out_channels > 0,
                input.volume().wf(),
                weights.weight.dims@.len() == 4,
                sliding.can_run(
                    input.n as int,
                    input.c as int,
                    input.h as int,
                    input.w as int,
                    *weights,
                ),
                sliding.refusal(input.c as int, input.h as int, input.w as int, *weights) is None,
                out_channels == weights.weight.dims@[3],
                out_h == sliding.out_h(input.h as int, *weights),
                out_w == sliding.out_w(input.w as int, *weights),
                taps == weights.weight.dims@[2] * weights.weight.dims@[1]
                    * weights.weight.dims@[0],
                m == float_ops::model(ops),
                at == (|r: int, ow: int|
                    sliding.taps(
                        m,
                        input.volume(),
                        *weights,
                        (r / (out_h as int)) / (out_channels as int),
                        (r / (out_h as int)) % (out_channels as int),
                        r % (out_h as int),
                        ow,
                        taps as int,
                    )),
                data@.len() == row * out_w + ow,
                float_ops::functional(ops) ==> forall|i: int|
                    0 <= i < row * out_w + ow ==> #[trigger] data@[i] == at(
                        i / out_w as int,
                        i % out_w as int,
                    ),
            decreases out_w - ow,
        {
            let sum = sum_taps(ops, sliding, input, weights, n, oc, oh, ow, taps);
            proof {
                lemma_index(row as int, count as int, ow as int, out_w as int);
            }
            data.push(sum);
            ow = ow + 1;
        }
        row = row + 1;
    }
    proof {
        if float_ops::functional(ops) {
            lemma_is_grid(data@, count as int, out_w as int, at);
        }
    }
    Ok(Tensor4 { data, n: input.n, c: out_channels, h: out_h, w: out_w })
}

} // verus!
