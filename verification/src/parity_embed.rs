//! The embedding of a graph and that of the host.

use vstd::prelude::*;
use crate::bits::ZERO_BITS;
use crate::embed_graph::{undilated, XasrEncoderEmbedGraphShape};
use crate::encoder_upload::{SWOOSH_L_OFFSET, SWOOSH_L_SHIFT, SWOOSH_R_OFFSET, SWOOSH_R_SHIFT};
use crate::encoder_weights::XasrConv2dWeights;
use crate::float_ops::mul_add_of;
use crate::layer_values::{self, SWOOSH_LINEAR_SCALE};
use crate::parity::{lemma_flat, lemma_place, lemma_repeats, Device};
use crate::parity_values::lemma_flat_planes;
use crate::reference_conv::{lemma_grid_at, lemma_grid_len};
use crate::reference_embed::{Sliding, Volume};
use crate::reference_embedding::{concatenated, frame_of, sliced};
use crate::reference_rows::sums;
use crate::rows::{self, joined, part_of};
use crate::sums::dot;
use crate::tensor_value::{conv_axis, ConvParams, Scalar, TensorValue};

verus! {

impl Device {
    /// The tensor holds the planes of a volume.
    pub open spec fn holds_volume(self, x: TensorValue, v: Volume) -> bool {
        &&& v.wf()
        &&& v.n == 1
        &&& x.has_shape(v.w, v.h, v.c, 1)
        &&& forall|w: int, h: int, c: int|
            0 <= w < v.w && 0 <= h < v.h && 0 <= c < v.c ==> self.value(
                #[trigger] (x.at)(w, h, c, 0),
            ) == v.data[(c * v.h + h) * v.w + w]
    }

    /// The tensors hold kernels and their biases.
    pub open spec fn holds_kernels(
        self,
        kernel: TensorValue,
        bias: TensorValue,
        weights: XasrConv2dWeights,
    ) -> bool {
        let dims = weights.weight.dims@;
        &&& dims.len() == 4
        &&& dims[0] > 0
        &&& dims[1] > 0
        &&& dims[2] > 0
        &&& kernel.has_shape(dims[0] as int, dims[1] as int, dims[2] as int, dims[3] as int)
        &&& forall|kw: int, kh: int, ic: int, oc: int|
            0 <= kw < dims[0] && 0 <= kh < dims[1] && 0 <= ic < dims[2] && 0 <= oc < dims[3]
                ==> self.value(#[trigger] (kernel.at)(kw, kh, ic, oc))
                == weights.weight.values@[((oc * dims[2] + ic) * dims[1] + kh) * dims[0] + kw]
        &&& weights.bias@.len() == dims[3]
        &&& self.holds_list(bias, weights.bias@)
    }
}

/// What a convolution reads for one tap: zero beyond the edges.
pub open spec fn volume_tap(
    sliding: Sliding,
    input: Volume,
    weights: XasrConv2dWeights,
    oc: int,
    oh: int,
    ow: int,
    tap: int,
) -> u32 {
    let kernel_w = weights.weight.dims@[0] as int;
    let kernel_h = weights.weight.dims@[1] as int;
    let in_per_group = weights.weight.dims@[2] as int;
    let out_per_group = weights.weight.dims@[3] as int / sliding.groups as int;
    let ic = (oc / out_per_group) * in_per_group + (tap / kernel_w) / kernel_h;
    let ih = oh * sliding.stride_h + (tap / kernel_w) % kernel_h - sliding.pad_top;
    let iw = ow * sliding.stride_w + tap % kernel_w - sliding.pad_left;
    if 0 <= ih < input.h && 0 <= iw < input.w {
        input.at(0, ic, ih, iw)
    } else {
        ZERO_BITS
    }
}

/// Taps beyond the edges may as well be zeros.
proof fn lemma_taps(
    device: Device,
    sliding: Sliding,
    input: Volume,
    weights: XasrConv2dWeights,
    oc: int,
    oh: int,
    ow: int,
    inputs: Seq<u32>,
    kernels: Seq<u32>,
    n: int,
)
    requires
        device.convolves_as_the_host(),
        forall|k: int|
            0 <= k < n ==> #[trigger] inputs[k] == volume_tap(
                sliding,
                input,
                weights,
                oc,
                oh,
                ow,
                k,
            ),
        forall|k: int|
            0 <= k < n ==> #[trigger] kernels[k] == weights.weight.values@[oc * (
            weights.weight.dims@[2] * weights.weight.dims@[1] * weights.weight.dims@[0]) + k],
    ensures
        sliding.taps(device.host, input, weights, 0, oc, oh, ow, n) == dot(
            device.host,
            weights.bias@[oc],
            inputs,
            0,
            kernels,
            0,
            n,
        ),
    decreases n,
{
    if n > 0 {
        lemma_taps(device, sliding, input, weights, oc, oh, ow, inputs, kernels, n - 1);
        let tap = n - 1;
        assert(inputs[tap] == volume_tap(sliding, input, weights, oc, oh, ow, tap));
        assert(kernels[tap] == weights.weight.values@[oc * (weights.weight.dims@[2]
            * weights.weight.dims@[1] * weights.weight.dims@[0]) + tap]);
        let before = dot(device.host, weights.bias@[oc], inputs, 0, kernels, 0, tap);
        assert(mul_add_of(device.host, before, ZERO_BITS, kernels[tap]) == before);
    }
}

/// A tap of a kernel, by its place.
proof fn lemma_tap_place(k: int, w: int, h: int, c: int, oc: int)
    requires
        0 <= k < w * h * c,
        0 < w,
        0 < h,
        0 < c,
    ensures
        0 <= k % w < w,
        0 <= (k / w) % h < h,
        0 <= k / (w * h) < c,
        k / (w * h) == (k / w) / h,
        ((oc * c + k / (w * h)) * h + (k / w) % h) * w + k % w == oc * (c * h * w) + k,
{
    vstd::arithmetic::div_mod::lemma_fundamental_div_mod(k, w);
    let row = k / w;
    let kw = k % w;
    assert(0 <= row) by (nonlinear_arith)
        requires
            k == w * row + kw,
            0 <= k,
            0 <= kw < w,
    ;
    vstd::arithmetic::div_mod::lemma_fundamental_div_mod(row, h);
    let ic = row / h;
    let kh = row % h;
    vstd::arithmetic::div_mod::lemma_div_denominator(k, w, h);
    assert(0 <= ic) by (nonlinear_arith)
        requires
            row == h * ic + kh,
            0 <= row,
            0 <= kh < h,
    ;
    assert(ic < c) by (nonlinear_arith)
        requires
            k == w * row + kw,
            row == h * ic + kh,
            0 <= kw,
            0 <= kh,
            k < w * h * c,
            0 < w,
            0 < h,
    ;
    assert(((oc * c + ic) * h + kh) * w + kw == oc * (c * h * w) + k) by (nonlinear_arith)
        requires
            k == w * row + kw,
            row == h * ic + kh,
    ;
}

/// The value of a convolution of a graph with a single group.
proof fn lemma_conv_value(
    device: Device,
    x: TensorValue,
    kernel: TensorValue,
    bias: TensorValue,
    weights: XasrConv2dWeights,
    input: Volume,
    sliding: Sliding,
    p: ConvParams,
    oc: int,
    oh: int,
    ow: int,
)
    requires
        device.convolves_as_the_host(),
        device.holds_kernels(kernel, bias, weights),
        device.holds_volume(x, input),
        weights.weight.dims@[2] == input.c,
        sliding.groups == 1,
        p == undilated(sliding.stride_w, sliding.stride_h, sliding.pad_left),
        sliding.pad_top == 0,
        0 <= oc < weights.weight.dims@[3],
        0 <= oh,
        0 <= ow,
    ensures
        ({
            let dims = weights.weight.dims@;
            let y = layer_values::conv_with_bias(kernel, x, bias, dims[3] as int, p);
            device.value((y.at)(ow, oh, oc, 0)) == sliding.taps(
                device.host,
                input,
                weights,
                0,
                oc,
                oh,
                ow,
                dims[2] * dims[1] * dims[0],
            )
        }),
{
    let dims = weights.weight.dims@;
    let w = dims[0] as int;
    let h = dims[1] as int;
    let c = dims[2] as int;
    let out = dims[3] as int;
    let n = w * h * c;
    assert(c * h * w == n) by (nonlinear_arith)
        requires
            n == w * h * c,
    ;
    assert(0 < n) by (nonlinear_arith)
        requires
            n == w * h * c,
            0 < w,
            0 < h,
            0 < c,
    ;
    let first = Seq::new(
        n as nat,
        |k: int| (kernel.at)(k % w, (k / w) % h, k / (w * h), oc),
    );
    let second = Seq::new(
        n as nat,
        |k: int|
            x.padded(
                ow * p.stride_w + (k % w) * p.dilation_w - p.pad_w,
                oh * p.stride_h + ((k / w) % h) * p.dilation_h - p.pad_h,
                k / (w * h),
                0,
            ),
    );
    let kernels = device.values(first);
    let inputs = device.values(second);
    vstd::arithmetic::div_mod::lemma_fundamental_div_mod_converse(out, 1, out, 0);
    vstd::arithmetic::div_mod::lemma_fundamental_div_mod_converse(oc, out, 0, oc);
    assert forall|k: int| 0 <= k < n implies #[trigger] kernels[k] == weights.weight.values@[oc * (
    weights.weight.dims@[2] * weights.weight.dims@[1] * weights.weight.dims@[0]) + k] by {
        lemma_tap_place(k, w, h, c, oc);
        assert(first[k] == (kernel.at)(k % w, (k / w) % h, k / (w * h), oc));
    }
    assert forall|k: int| 0 <= k < n implies #[trigger] inputs[k] == volume_tap(
        sliding,
        input,
        weights,
        oc,
        oh,
        ow,
        k,
    ) by {
        lemma_tap_place(k, w, h, c, oc);
        let iw = ow * sliding.stride_w + k % w - sliding.pad_left;
        let ih = oh * sliding.stride_h + (k / w) % h - sliding.pad_top;
        let ic = k / (w * h);
        assert(second[k] == x.padded(iw, ih, ic, 0));
        assert(0 * c == 0) by (nonlinear_arith);
        if 0 <= ih < input.h && 0 <= iw < input.w {
            assert(device.value((x.at)(iw, ih, ic, 0)) == input.data[(ic * input.h + ih) * input.w
                + iw]);
            assert(0 * input.c + ic == ic) by (nonlinear_arith);
        } else {
            assert(second[k] == Scalar::Zero);
        }
    }
    lemma_taps(device, sliding, input, weights, oc, oh, ow, inputs, kernels, n);
    let convolved = kernel.conv_2d(x, p);
    assert((convolved.at)(ow, oh, oc, 0) == Scalar::Dot(first, second));
    assert(device.value(Scalar::Dot(first, second)) == (device.dot)(kernels, inputs));
    lemma_bias(device, bias, weights.bias@, out, ow, oh, oc);
    assert(kernels.len() == n && inputs.len() == n);
    let y = layer_values::conv_with_bias(kernel, x, bias, out, p);
    let planes = bias.reshaped(1, 1, out, 1);
    assert((y.at)(ow, oh, oc, 0) == Scalar::Sum(
        Box::new(Scalar::Dot(first, second)),
        Box::new(planes.repeated(ow, oh, oc, 0)),
    ));
    assert(device.value((y.at)(ow, oh, oc, 0)) == (device.host.add)(
        (device.dot)(kernels, inputs),
        weights.bias@[oc],
    ));
}

/// The bias of a channel.
proof fn lemma_bias(
    device: Device,
    bias: TensorValue,
    biases: Seq<u32>,
    channels: int,
    ow: int,
    oh: int,
    c: int,
)
    requires
        device.holds_list(bias, biases),
        biases.len() == channels,
        0 <= c < channels,
        0 <= ow,
        0 <= oh,
    ensures
        device.value(bias.reshaped(1, 1, channels, 1).repeated(ow, oh, c, 0)) == biases[c],
{
    lemma_repeats(c, channels);
    lemma_repeats(ow, ow + 1);
    lemma_repeats(oh, oh + 1);
    assert(((0 * channels + c) * 1 + 0) * 1 + 0 == c);
    lemma_flat(bias, channels, 1, 0, c);
    assert(0 * channels + c == c);
    assert(device.value((bias.at)(c, 0, 0, 0)) == biases[c]);
}

/// The sizes of the output of a convolution.
pub open spec fn slides(sliding: Sliding, input: Volume, weights: XasrConv2dWeights) -> bool {
    let dims = weights.weight.dims@;
    &&& sliding.stride_w > 0
    &&& sliding.stride_h > 0
    &&& sliding.pad_top == 0
    &&& sliding.pad_bottom == 0
    &&& sliding.pad_left == sliding.pad_right
    &&& sliding.padded_h(input.h) >= dims[1]
    &&& sliding.padded_w(input.w) >= dims[0]
}

/// The output of the host, by its places.
proof fn lemma_output(
    device: Device,
    sliding: Sliding,
    input: Volume,
    weights: XasrConv2dWeights,
)
    requires
        slides(sliding, input, weights),
        input.n == 1,
    ensures
        ({
            let dims = weights.weight.dims@;
            let v = sliding.output(device.host, input, weights);
            let p = undilated(sliding.stride_w, sliding.stride_h, sliding.pad_left);
            &&& v.wf()
            &&& v.n == 1
            &&& v.c == dims[3]
            &&& v.w == conv_axis(input.w, dims[0] as int, p.stride_w as int, p.pad_w as int, 1)
            &&& v.h == conv_axis(input.h, dims[1] as int, p.stride_h as int, p.pad_h as int, 1)
            &&& forall|w: int, h: int, c: int|
                0 <= w < v.w && 0 <= h < v.h && 0 <= c < v.c ==> #[trigger] v.data[(c * v.h + h)
                    * v.w + w] == sliding.taps(
                    device.host,
                    input,
                    weights,
                    0,
                    c,
                    h,
                    w,
                    dims[2] * dims[1] * dims[0],
                )
        }),
{
    let m = device.host;
    let dims = weights.weight.dims@;
    let taps = dims[2] * dims[1] * dims[0];
    let out_c = dims[3] as int;
    let out_h = sliding.out_h(input.h, weights);
    let out_w = sliding.out_w(input.w, weights);
    let v = sliding.output(m, input, weights);
    let at = |r: int, ow: int|
        sliding.taps(
            m,
            input,
            weights,
            (r / out_h) / out_c,
            (r / out_h) % out_c,
            r % out_h,
            ow,
            taps,
        );
    let high = sliding.padded_h(input.h) - dims[1];
    let wide = sliding.padded_w(input.w) - dims[0];
    vstd::arithmetic::div_mod::lemma_div_pos_is_pos(high, sliding.stride_h as int);
    vstd::arithmetic::div_mod::lemma_div_pos_is_pos(wide, sliding.stride_w as int);
    assert(0 <= out_c * out_h) by (nonlinear_arith)
        requires
            0 <= out_c,
            0 <= out_h,
    ;
    assert(1 * out_c * out_h == out_c * out_h && 1 * out_c == out_c);
    lemma_grid_len(out_c * out_h, out_w, at);
    assert forall|w: int, h: int, c: int| 0 <= w < v.w && 0 <= h < v.h && 0 <= c < v.c implies
        #[trigger] v.data[(c * v.h + h) * v.w + w] == sliding.taps(
        m,
        input,
        weights,
        0,
        c,
        h,
        w,
        taps,
    ) by {
        lemma_place(c, out_c, h, out_h);
        lemma_grid_at(out_c * out_h, out_w, at, c * out_h + h, w);
        lemma_repeats(c, out_c);
        vstd::arithmetic::div_mod::lemma_fundamental_div_mod_converse(c, out_c, 0, c);
    }
}

/// A convolution of a graph over all channels is that of the host.
pub proof fn law_graph_conv2d_is_the_host_one(
    device: Device,
    x: TensorValue,
    kernel: TensorValue,
    bias: TensorValue,
    weights: XasrConv2dWeights,
    input: Volume,
    sliding: Sliding,
)
    requires
        device.convolves_as_the_host(),
        device.holds_kernels(kernel, bias, weights),
        device.holds_volume(x, input),
        weights.weight.dims@[2] == input.c,
        sliding.groups == 1,
        slides(sliding, input, weights),
    ensures
        device.holds_volume(
            layer_values::conv_with_bias(
                kernel,
                x,
                bias,
                weights.weight.dims@[3] as int,
                undilated(sliding.stride_w, sliding.stride_h, sliding.pad_left),
            ),
            sliding.output(device.host, input, weights),
        ),
{
    let dims = weights.weight.dims@;
    let p = undilated(sliding.stride_w, sliding.stride_h, sliding.pad_left);
    let y = layer_values::conv_with_bias(kernel, x, bias, dims[3] as int, p);
    let v = sliding.output(device.host, input, weights);
    lemma_output(device, sliding, input, weights);
    assert forall|w: int, h: int, c: int| 0 <= w < v.w && 0 <= h < v.h && 0 <= c < v.c implies
        device.value(#[trigger] (y.at)(w, h, c, 0)) == v.data[(c * v.h + h) * v.w + w] by {
        lemma_conv_value(device, x, kernel, bias, weights, input, sliding, p, c, h, w);
    }
}

/// The value of a convolution of a graph that keeps channels apart.
proof fn lemma_depthwise_conv_value(
    device: Device,
    x: TensorValue,
    kernel: TensorValue,
    bias: TensorValue,
    weights: XasrConv2dWeights,
    input: Volume,
    sliding: Sliding,
    p: ConvParams,
    oc: int,
    oh: int,
    ow: int,
)
    requires
        device.convolves_as_the_host(),
        device.holds_kernels(kernel, bias, weights),
        device.holds_volume(x, input),
        weights.weight.dims@[2] == 1,
        weights.weight.dims@[3] == input.c,
        sliding.groups == input.c,
        p == undilated(sliding.stride_w, sliding.stride_h, sliding.pad_left),
        sliding.pad_top == 0,
        0 <= oc < input.c,
        0 <= oh,
        0 <= ow,
    ensures
        ({
            let dims = weights.weight.dims@;
            let y = layer_values::depthwise_with_bias(kernel, x, bias, input.c, p);
            device.value((y.at)(ow, oh, oc, 0)) == sliding.taps(
                device.host,
                input,
                weights,
                0,
                oc,
                oh,
                ow,
                dims[2] * dims[1] * dims[0],
            )
        }),
{
    let dims = weights.weight.dims@;
    let w = dims[0] as int;
    let h = dims[1] as int;
    let out = input.c;
    let n = w * h;
    assert(1 * h * w == n && w * h * 1 == n) by (nonlinear_arith)
        requires
            n == w * h,
    ;
    assert(0 < n) by (nonlinear_arith)
        requires
            n == w * h,
            0 < w,
            0 < h,
    ;
    let first = Seq::new(n as nat, |k: int| (kernel.at)(k % w, k / w, 0, oc));
    let second = Seq::new(
        n as nat,
        |k: int|
            x.padded(
                ow * p.stride_w + (k % w) * p.dilation_w - p.pad_w,
                oh * p.stride_h + (k / w) * p.dilation_h - p.pad_h,
                oc,
                0,
            ),
    );
    let kernels = device.values(first);
    let inputs = device.values(second);
    vstd::arithmetic::div_mod::lemma_fundamental_div_mod_converse(out, out, 1, 0);
    vstd::arithmetic::div_mod::lemma_fundamental_div_mod_converse(oc, 1, oc, 0);
    assert forall|k: int| 0 <= k < n implies 0 <= #[trigger] (k % w) < w && 0 <= k / w < h && (k
        / w) % h == k / w && (k / w) / h == 0 by {
        lemma_tap_place(k, w, h, 1, oc);
        vstd::arithmetic::div_mod::lemma_fundamental_div_mod(k / w, h);
        assert(h * ((k / w) / h) == 0) by (nonlinear_arith)
            requires
                (k / w) / h == 0,
        ;
    }
    assert forall|k: int| 0 <= k < n implies #[trigger] kernels[k] == weights.weight.values@[oc * (
    weights.weight.dims@[2] * weights.weight.dims@[1] * weights.weight.dims@[0]) + k] by {
        lemma_tap_place(k, w, h, 1, oc);
        assert(0 <= k % w < w);
        assert(first[k] == (kernel.at)(k % w, k / w, 0, oc));
    }
    assert forall|k: int| 0 <= k < n implies #[trigger] inputs[k] == volume_tap(
        sliding,
        input,
        weights,
        oc,
        oh,
        ow,
        k,
    ) by {
        assert(0 <= k % w < w);
        let iw = ow * sliding.stride_w + k % w - sliding.pad_left;
        let ih = oh * sliding.stride_h + k / w - sliding.pad_top;
        assert(second[k] == x.padded(iw, ih, oc, 0));
        assert(oc * 1 + 0 == oc);
        if 0 <= ih < input.h && 0 <= iw < input.w {
            assert(device.value((x.at)(iw, ih, oc, 0)) == input.data[(oc * input.h + ih) * input.w
                + iw]);
            assert(0 * input.c + oc == oc) by (nonlinear_arith);
        } else {
            assert(second[k] == Scalar::Zero);
        }
    }
    lemma_taps(device, sliding, input, weights, oc, oh, ow, inputs, kernels, n);
    let convolved = kernel.depthwise_conv_2d(x, p);
    assert((convolved.at)(ow, oh, oc, 0) == Scalar::Dot(first, second));
    assert(device.value(Scalar::Dot(first, second)) == (device.dot)(kernels, inputs));
    lemma_bias(device, bias, weights.bias@, out, ow, oh, oc);
    assert(kernels.len() == n && inputs.len() == n);
    let y = layer_values::depthwise_with_bias(kernel, x, bias, out, p);
    let planes = bias.reshaped(1, 1, out, 1);
    assert((y.at)(ow, oh, oc, 0) == Scalar::Sum(
        Box::new(Scalar::Dot(first, second)),
        Box::new(planes.repeated(ow, oh, oc, 0)),
    ));
    assert(device.value((y.at)(ow, oh, oc, 0)) == (device.host.add)(
        (device.dot)(kernels, inputs),
        weights.bias@[oc],
    ));
}

/// A convolution of a graph that keeps channels apart is that of the host.
pub proof fn law_graph_depthwise_conv2d_is_the_host_one(
    device: Device,
    x: TensorValue,
    kernel: TensorValue,
    bias: TensorValue,
    weights: XasrConv2dWeights,
    input: Volume,
    sliding: Sliding,
)
    requires
        device.convolves_as_the_host(),
        device.holds_kernels(kernel, bias, weights),
        device.holds_volume(x, input),
        weights.weight.dims@[2] == 1,
        weights.weight.dims@[3] == input.c,
        sliding.groups == input.c,
        slides(sliding, input, weights),
    ensures
        device.holds_volume(
            layer_values::depthwise_with_bias(
                kernel,
                x,
                bias,
                input.c,
                undilated(sliding.stride_w, sliding.stride_h, sliding.pad_left),
            ),
            sliding.output(device.host, input, weights),
        ),
{
    let p = undilated(sliding.stride_w, sliding.stride_h, sliding.pad_left);
    let y = layer_values::depthwise_with_bias(kernel, x, bias, input.c, p);
    let v = sliding.output(device.host, input, weights);
    lemma_output(device, sliding, input, weights);
    assert forall|w: int, h: int, c: int| 0 <= w < v.w && 0 <= h < v.h && 0 <= c < v.c implies
        device.value(#[trigger] (y.at)(w, h, c, 0)) == v.data[(c * v.h + h) * v.w + w] by {
        lemma_depthwise_conv_value(device, x, kernel, bias, weights, input, sliding, p, c, h, w);
    }
}

/// An activation of a graph at a place of a volume.
proof fn lemma_volume_swoosh(
    device: Device,
    x: TensorValue,
    offset: TensorValue,
    shift: TensorValue,
    w: int,
    h: int,
    c: int,
)
    requires
        offset.has_shape(1, 1, 1, 1),
        shift.has_shape(1, 1, 1, 1),
        x.ne3 == 1,
        0 <= w < x.ne0,
        0 <= h < x.ne1,
        0 <= c < x.ne2,
    ensures
        device.value((layer_values::swoosh(x, offset, shift).at)(w, h, c, 0)) == (device.host.sub)(
            (device.host.sub)(
                (device.softplus)(
                    (device.host.sub)(
                        device.value((x.at)(w, h, c, 0)),
                        device.value((offset.at)(0, 0, 0, 0)),
                    ),
                ),
                (device.host.mul)(device.value((x.at)(w, h, c, 0)), SWOOSH_LINEAR_SCALE),
            ),
            device.value((shift.at)(0, 0, 0, 0)),
        ),
{
    lemma_repeats(w, x.ne0);
    lemma_repeats(h, x.ne1);
    lemma_repeats(c, x.ne2);
    reveal_with_fuel(Device::value, 5);
}

/// The activations of a graph on volumes are those of the host.
pub proof fn law_graph_volume_activations_are_the_host_ones(
    device: Device,
    x: TensorValue,
    input: Volume,
    r_offset: TensorValue,
    r_shift: TensorValue,
    l_offset: TensorValue,
    l_shift: TensorValue,
)
    requires
        device.activates_as_the_host(),
        device.holds_volume(x, input),
        device.holds_list(r_offset, seq![SWOOSH_R_OFFSET]),
        device.holds_list(r_shift, seq![SWOOSH_R_SHIFT]),
        device.holds_list(l_offset, seq![SWOOSH_L_OFFSET]),
        device.holds_list(l_shift, seq![SWOOSH_L_SHIFT]),
    ensures
        device.holds_volume(
            layer_values::swoosh(x, r_offset, r_shift),
            input.swooshed_r(device.host),
        ),
        device.holds_volume(
            layer_values::swoosh(x, l_offset, l_shift),
            input.swooshed_l(device.host),
        ),
{
    let r = layer_values::swoosh(x, r_offset, r_shift);
    let l = layer_values::swoosh(x, l_offset, l_shift);
    let vr = input.swooshed_r(device.host);
    let vl = input.swooshed_l(device.host);
    assert(device.value((r_offset.at)(0, 0, 0, 0)) == SWOOSH_R_OFFSET);
    assert(device.value((r_shift.at)(0, 0, 0, 0)) == SWOOSH_R_SHIFT);
    assert(device.value((l_offset.at)(0, 0, 0, 0)) == SWOOSH_L_OFFSET);
    assert(device.value((l_shift.at)(0, 0, 0, 0)) == SWOOSH_L_SHIFT);
    assert(1 * input.c == input.c);
    assert forall|w: int, h: int, c: int|
        0 <= w < input.w && 0 <= h < input.h && 0 <= c < input.c implies device.value(
        #[trigger] (r.at)(w, h, c, 0),
    ) == vr.data[(c * input.h + h) * input.w + w] by {
        lemma_place(c, input.c, h, input.h);
        lemma_place(c * input.h + h, input.c * input.h, w, input.w);
        assert(device.value((x.at)(w, h, c, 0)) == input.data[(c * input.h + h) * input.w + w]);
        lemma_volume_swoosh(device, x, r_offset, r_shift, w, h, c);
    }
    assert forall|w: int, h: int, c: int|
        0 <= w < input.w && 0 <= h < input.h && 0 <= c < input.c implies device.value(
        #[trigger] (l.at)(w, h, c, 0),
    ) == vl.data[(c * input.h + h) * input.w + w] by {
        lemma_place(c, input.c, h, input.h);
        lemma_place(c * input.h + h, input.c * input.h, w, input.w);
        assert(device.value((x.at)(w, h, c, 0)) == input.data[(c * input.h + h) * input.w + w]);
        lemma_volume_swoosh(device, x, l_offset, l_shift, w, h, c);
    }
}

/// Rows of planes, set behind those of other planes.
pub proof fn lemma_concatenated(
    device: Device,
    x: TensorValue,
    y: TensorValue,
    a: Volume,
    b: Volume,
)
    requires
        device.holds_volume(x, a),
        device.holds_volume(y, b),
        a.c == b.c,
        a.w == b.w,
    ensures
        device.holds_volume(x.concat(y, 1), concatenated(a, b)),
{
    let z = x.concat(y, 1);
    let v = concatenated(a, b);
    let w = a.w;
    let part = |p: int| part_of(a.data, a.h * a.w, p) + part_of(b.data, b.h * b.w, p);
    let width = v.h * w;
    assert(1 * a.c == a.c);
    assert(a.c * a.h * w == a.c * (a.h * w) && b.c * b.h * w == b.c * (b.h * w) && a.h * w + b.h * w
        == width && 0 <= a.h * w && 0 <= b.h * w && a.c * width == a.c * v.h * w)
        by (nonlinear_arith)
        requires
            width == v.h * w,
            v.h == a.h + b.h,
            0 <= a.h,
            0 <= b.h,
            0 <= w,
    ;
    assert forall|p: int| 0 <= p < a.c implies (#[trigger] part(p)).len() == width by {
        rows::lemma_part_bounds(p, a.c, a.h * w);
        rows::lemma_part_bounds(p, a.c, b.h * w);
    }
    rows::lemma_joined_len(a.c, part, width);
    assert forall|i: int, h: int, c: int| 0 <= i < v.w && 0 <= h < v.h && 0 <= c < v.c implies
        device.value(#[trigger] (z.at)(i, h, c, 0)) == v.data[(c * v.h + h) * v.w + i] by {
        lemma_place(h, v.h, i, w);
        assert((c * v.h + h) * w + i == c * width + (h * w + i)) by (nonlinear_arith)
            requires
                width == v.h * w,
        ;
        rows::lemma_joined_at(a.c, part, width, c, h * w + i);
        rows::lemma_part_bounds(c, a.c, a.h * w);
        rows::lemma_part_bounds(c, a.c, b.h * w);
        if h < a.h {
            lemma_place(h, a.h, i, w);
            assert(device.value((x.at)(i, h, c, 0)) == a.data[(c * a.h + h) * w + i]);
            assert((c * a.h + h) * w + i == c * (a.h * w) + (h * w + i)) by (nonlinear_arith);
        } else {
            let row = h - a.h;
            lemma_place(row, b.h, i, w);
            assert(device.value((y.at)(i, row, c, 0)) == b.data[(c * b.h + row) * w + i]);
            assert((c * b.h + row) * w + i == c * (b.h * w) + (row * w + i)) by (nonlinear_arith);
            assert(h * w + i == a.h * w + (row * w + i)) by (nonlinear_arith)
                requires
                    row == h - a.h,
            ;
        }
    }
}

/// Rows taken out of each plane.
pub proof fn lemma_sliced(
    device: Device,
    shape: XasrEncoderEmbedGraphShape,
    x: TensorValue,
    v: Volume,
    first: int,
    count: int,
)
    requires
        device.holds_volume(x, v),
        v.w == shape.embed_width,
        v.c == shape.channels,
        0 <= first,
        0 <= count,
        first + count <= v.h,
    ensures
        device.holds_volume(shape.rows_of(x, v.h, first, count), sliced(v, first, first + count)),
{
    let w = v.w;
    let y = shape.rows_of(x, v.h, first, count);
    let taken = sliced(v, first, first + count);
    let end = first + count;
    let plane = v.h * w;
    let width = count * w;
    let part = |p: int| part_of(v.data, plane, p).subrange(first * w, end * w);
    assert(1 * v.c == v.c);
    assert(v.c * v.h * w == v.c * plane && first * w + width == end * w && 0 <= first * w && 0
        <= width && end * w <= plane && 0 <= plane && v.c * count * w == v.c * width)
        by (nonlinear_arith)
        requires
            plane == v.h * w,
            width == count * w,
            end == first + count,
            0 <= first,
            0 <= count,
            end <= v.h,
            0 <= w,
    ;
    assert forall|p: int| 0 <= p < v.c implies (#[trigger] part(p)).len() == width by {
        rows::lemma_part_bounds(p, v.c, plane);
    }
    rows::lemma_joined_len(v.c, part, width);
    let nb1 = shape.nb1();
    assert forall|i: int, h: int, c: int| 0 <= i < w && 0 <= h < count && 0 <= c < v.c implies
        device.value(#[trigger] (y.at)(i, h, c, 0)) == taken.data[(c * count + h) * w + i] by {
        let row = first + h;
        let at = first * nb1 + h * nb1 + c * (v.h * nb1);
        assert(at == ((c * v.h + row) * w) * 4) by (nonlinear_arith)
            requires
                at == first * nb1 + h * nb1 + c * (v.h * nb1),
                nb1 == w * 4,
                row == first + h,
        ;
        assert(0 * (shape.channels * (v.h * nb1)) == 0) by (nonlinear_arith);
        vstd::arithmetic::div_mod::lemma_fundamental_div_mod_converse(
            at,
            4,
            (c * v.h + row) * w,
            0,
        );
        lemma_flat_planes(x, w, v.h, v.c, c, row, i);
        assert((y.at)(i, h, c, 0) == (x.at)(i, row, c, 0));
        assert(device.value((x.at)(i, row, c, 0)) == v.data[(c * v.h + row) * w + i]);
        lemma_place(h, count, i, w);
        assert((c * count + h) * w + i == c * width + (h * w + i)) by (nonlinear_arith)
            requires
                width == count * w,
        ;
        rows::lemma_joined_at(v.c, part, width, c, h * w + i);
        rows::lemma_part_bounds(c, v.c, plane);
        assert((c * v.h + row) * w + i == c * plane + (first * w + (h * w + i)))
            by (nonlinear_arith)
            requires
                plane == v.h * w,
                row == first + h,
        ;
    }
}

/// The sum of two volumes.
pub proof fn lemma_volume_sum(
    device: Device,
    x: TensorValue,
    y: TensorValue,
    a: Volume,
    b: Volume,
)
    requires
        device.holds_volume(x, a),
        device.holds_volume(y, b),
        a.c == b.c,
        a.h == b.h,
        a.w == b.w,
    ensures
        device.holds_volume(
            x.plus(y),
            (Volume { data: sums(device.host, a.data, b.data), ..a }),
        ),
{
    let z = x.plus(y);
    let v = Volume { data: sums(device.host, a.data, b.data), ..a };
    assert(1 * a.c == a.c);
    assert forall|w: int, h: int, c: int| 0 <= w < v.w && 0 <= h < v.h && 0 <= c < v.c implies
        device.value(#[trigger] (z.at)(w, h, c, 0)) == v.data[(c * v.h + h) * v.w + w] by {
        lemma_place(c, v.c, h, v.h);
        lemma_place(c * v.h + h, v.c * v.h, w, v.w);
        lemma_repeats(w, v.w);
        lemma_repeats(h, v.h);
        lemma_repeats(c, v.c);
        assert(device.value((x.at)(w, h, c, 0)) == a.data[(c * a.h + h) * a.w + w]);
        assert(device.value((y.at)(w, h, c, 0)) == b.data[(c * b.h + h) * b.w + w]);
        reveal_with_fuel(Device::value, 2);
    }
}

/// The rows of a volume: row `t` of each plane, one plane after the other.
pub open spec fn frames_of(v: Volume) -> Seq<u32> {
    joined(v.h, |t: int| frame_of(v, t))
}

/// The planes of a volume as rows.
pub proof fn lemma_frames(device: Device, x: TensorValue, v: Volume)
    requires
        device.holds_volume(x, v),
    ensures
        device.holds(
            x.planes_to_rows().cont().reshaped(v.w * v.c, v.h, 1, 1),
            frames_of(v),
            v.w * v.c,
            v.h,
        ),
        forall|t: int| 0 <= t < v.h ==> #[trigger] part_of(frames_of(v), v.w * v.c, t) == frame_of(
            v,
            t,
        ),
{
    let turned = x.planes_to_rows().cont();
    let width = v.w * v.c;
    let y = turned.reshaped(width, v.h, 1, 1);
    let part = |t: int| frame_of(v, t);
    assert(v.c * v.w == width) by (nonlinear_arith)
        requires
            width == v.w * v.c,
    ;
    assert(0 <= width) by (nonlinear_arith)
        requires
            width == v.w * v.c,
            0 <= v.w,
            0 <= v.c,
    ;
    assert forall|t: int| 0 <= t < v.h implies (#[trigger] part(t)).len() == width by {
        lemma_grid_len(v.c, v.w, |c: int, w: int| v.data[(c * v.h + t) * v.w + w]);
    }
    rows::lemma_joined_len(v.h, part, width);
    assert forall|j: int, t: int| 0 <= j < width && 0 <= t < v.h implies device.value(
        #[trigger] (y.at)(j, t, 0, 0),
    ) == joined(v.h, part)[t * width + j] by {
        rows::lemma_joined_at(v.h, part, width, t, j);
        let at = |c: int, w: int| v.data[(c * v.h + t) * v.w + w];
        assert(v.w > 0) by (nonlinear_arith)
            requires
                0 <= j < v.w * v.c,
                0 <= v.w,
                0 <= v.c,
        ;
        let c = j / v.w;
        let i = j % v.w;
        vstd::arithmetic::div_mod::lemma_fundamental_div_mod(j, v.w);
        assert(v.w * c == c * v.w) by (nonlinear_arith);
        assert(0 <= c < v.c) by (nonlinear_arith)
            requires
                j == v.w * c + i,
                0 <= i < v.w,
                0 <= j < v.w * v.c,
        ;
        lemma_grid_at(v.c, v.w, at, c, i);
        lemma_flat_planes(turned, v.w, v.c, v.h, t, c, i);
        assert((t * v.c + c) * v.w + i == ((0 * 1 + 0) * v.h + t) * width + j) by (nonlinear_arith)
            requires
                width == v.w * v.c,
                j == c * v.w + i,
        ;
        assert((y.at)(j, t, 0, 0) == (x.at)(i, t, c, 0));
        assert(device.value((x.at)(i, t, c, 0)) == v.data[(c * v.h + t) * v.w + i]);
    }
    assert forall|t: int| 0 <= t < v.h implies #[trigger] part_of(frames_of(v), width, t)
        == frame_of(v, t) by {
        rows::lemma_part_bounds(t, v.h, width);
        assert(part(t).len() == width);
        assert forall|j: int| 0 <= j < width implies #[trigger] part_of(
            frames_of(v),
            width,
            t,
        )[j] == frame_of(v, t)[j] by {
            rows::lemma_joined_at(v.h, part, width, t, j);
        }
        assert(part_of(frames_of(v), width, t) =~= frame_of(v, t));
    }
}

} // verus!
