//! The convolutions of a graph and those of the host.

use vstd::prelude::*;
use crate::bits::ZERO_BITS;
use crate::encoder_tables::{scale_dims_fit, scale_table, scale_value};
use crate::encoder_upload::{SWOOSH_R_OFFSET, SWOOSH_R_SHIFT};
use crate::encoder_weights::{XasrConv1dWeights, XasrConvolutionModuleWeights};
use crate::float_ops::{mul_add_of, FloatModel};
use crate::graph::GgmlCpuGraphBuilder;
use crate::layer_graph::{
    row_conv, XasrConvolutionModuleGraphShape, XasrConvolutionModuleGraphTensors,
};
use crate::layer_values;
use crate::parity::{
    law_graph_gating_is_the_host_gating, law_graph_linear_is_the_host_linear,
    law_graph_swoosh_r_is_the_host_swoosh_r, lemma_flat, lemma_place, lemma_repeats, lemma_window,
    Device,
};
use crate::reference_conv::{
    grid, lemma_grid_at, lemma_grid_len, same_rows, same_value, valid_rows, valid_value,
};
use crate::reference_conv_module::{
    cached_channels, channel_rows, convolution_parts, convolution_values, convolved, gated_rows,
    last_inputs, left_out, mixed_channels,
};
use crate::reference_rows::swooshed_r;
use crate::rows::{self, joined, part_of};
use crate::sums::dot;
use crate::tensor_value::{conv_axis, Scalar, TensorValue};

verus! {

impl Device {
    /// The tensor holds channels one after the other, each in a plane of its own.
    pub open spec fn holds_channels(
        self,
        x: TensorValue,
        entries: Seq<u32>,
        len: int,
        channels: int,
    ) -> bool {
        &&& x.has_shape(len, 1, channels, 1)
        &&& entries.len() == channels * len
        &&& forall|t: int, c: int|
            0 <= t < len && 0 <= c < channels ==> self.value(#[trigger] (x.at)(t, 0, c, 0))
                == entries[c * len + t]
    }

    /// The tensors hold a kernel for each channel, and its bias.
    pub open spec fn holds_kernel(
        self,
        kernel: TensorValue,
        bias: TensorValue,
        weights: XasrConv1dWeights,
        channels: int,
    ) -> bool {
        let dims = weights.weight.dims@;
        &&& dims.len() == 3
        &&& dims[0] > 0
        &&& dims[1] == 1
        &&& dims[2] == channels
        &&& weights.bias@.len() == channels
        &&& self.holds_channels(kernel, weights.weight.values@, dims[0] as int, channels)
        &&& self.holds_list(bias, weights.bias@)
    }

    /// Sums of products are those of the host, and products with zero add nothing.
    pub open spec fn convolves_as_the_host(self) -> bool {
        let m = self.host;
        &&& forall|inputs: Seq<u32>, kernel: Seq<u32>, bias: u32|
            inputs.len() == kernel.len() ==> #[trigger] (m.add)((self.dot)(kernel, inputs), bias)
                == dot(m, bias, inputs, 0, kernel, 0, kernel.len() as int)
        &&& forall|sum: u32, factor: u32| #[trigger] mul_add_of(m, sum, ZERO_BITS, factor) == sum
    }
}

/// Sums of equal products.
pub proof fn lemma_same_dot(
    m: FloatModel,
    start: u32,
    xs: Seq<u32>,
    x_from: int,
    ys: Seq<u32>,
    y_from: int,
    us: Seq<u32>,
    vs: Seq<u32>,
    n: int,
)
    requires
        forall|i: int| 0 <= i < n ==> #[trigger] us[i] == xs[x_from + i],
        forall|i: int| 0 <= i < n ==> #[trigger] vs[i] == ys[y_from + i],
    ensures
        dot(m, start, us, 0, vs, 0, n) == dot(m, start, xs, x_from, ys, y_from, n),
    decreases n,
{
    if n > 0 {
        lemma_same_dot(m, start, xs, x_from, ys, y_from, us, vs, n - 1);
        assert(us[n - 1] == xs[x_from + (n - 1)]);
        assert(vs[n - 1] == ys[y_from + (n - 1)]);
    }
}

/// The element at a row-major position of channels.
proof fn lemma_flat_channels(x: TensorValue, len: int, channels: int, c: int, t: int)
    requires
        x.has_shape(len, 1, channels, 1),
        0 <= t < len,
        0 <= c < channels,
    ensures
        x.flat(c * len + t) == (x.at)(t, 0, c, 0),
{
    lemma_place(c, channels, t, len);
    lemma_repeats(c, channels);
    let k = c * len + t;
    assert(len * 1 == len);
    assert(len * 1 * channels == channels * len) by (nonlinear_arith);
    vstd::arithmetic::div_mod::lemma_fundamental_div_mod_converse(k, len * 1 * channels, 0, k);
}

/// What a channel reads at a position: zero beyond its ends.
pub open spec fn tap(input: Seq<u32>, input_len: int, c: int, at: int) -> u32 {
    if 0 <= at < input_len {
        input[c * input_len + at]
    } else {
        ZERO_BITS
    }
}

/// What a convolution of a graph gives at a position.
proof fn lemma_depthwise_value(
    device: Device,
    x: TensorValue,
    kernel: TensorValue,
    bias: TensorValue,
    weights: XasrConv1dWeights,
    input: Seq<u32>,
    channels: int,
    input_len: int,
    padding: usize,
    c: int,
    t: int,
)
    requires
        device.convolves_as_the_host(),
        device.holds_kernel(kernel, bias, weights, channels),
        device.holds(x, input, input_len, channels),
        0 <= c < channels,
        0 <= t,
    ensures
        ({
            let k = weights.weight.dims@[0] as int;
            let y = layer_values::depthwise_1d(
                x,
                kernel,
                bias,
                channels,
                input_len,
                k,
                row_conv(padding),
            );
            let taps = Seq::new(k as nat, |i: int| tap(input, input_len, c, t + i - padding));
            device.value((y.at)(t, 0, c, 0)) == dot(
                device.host,
                weights.bias@[c],
                taps,
                0,
                part_of(weights.weight.values@, k, c),
                0,
                k,
            )
        }),
{
    let k = weights.weight.dims@[0] as int;
    let p = row_conv(padding);
    let values = weights.weight.values@;
    let taps = Seq::new(k as nat, |i: int| tap(input, input_len, c, t + i - padding));
    let kernels = kernel.reshaped(k, 1, 1, channels);
    let inputs = x.reshaped(input_len, 1, channels, 1);
    let biases = bias.reshaped(1, 1, channels, 1);
    rows::lemma_part_bounds(c, channels, k);
    assert(k * 1 == k);
    let first = Seq::new(
        (kernels.ne0 * kernels.ne1) as nat,
        |i: int| (kernels.at)(i % kernels.ne0, i / kernels.ne0, 0, c),
    );
    let second = Seq::new(
        (kernels.ne0 * kernels.ne1) as nat,
        |i: int|
            inputs.padded(
                t * p.stride_w + (i % kernels.ne0) * p.dilation_w - p.pad_w,
                0 * p.stride_h + (i / kernels.ne0) * p.dilation_h - p.pad_h,
                c,
                0,
            ),
    );
    assert forall|i: int| 0 <= i < k implies #[trigger] device.values(first)[i] == part_of(
        values,
        k,
        c,
    )[i] by {
        lemma_repeats(i, k);
        vstd::arithmetic::div_mod::lemma_fundamental_div_mod_converse(i, k, 0, i);
        lemma_flat_channels(kernel, k, channels, c, i);
        assert(((c * 1 + 0) * 1 + 0) * k + i == c * k + i);
        assert(first[i] == (kernel.at)(i, 0, c, 0));
    }
    assert(device.values(first) =~= part_of(values, k, c));
    assert forall|i: int| 0 <= i < k implies #[trigger] device.values(second)[i] == taps[i] by {
        lemma_repeats(i, k);
        vstd::arithmetic::div_mod::lemma_fundamental_div_mod_converse(i, k, 0, i);
        let at = t + i - padding;
        assert(second[i] == inputs.padded(at, 0, c, 0));
        if 0 <= at < input_len {
            lemma_flat(x, input_len, channels, c, at);
            assert(((0 * channels + c) * 1 + 0) * input_len + at == c * input_len + at);
            assert(second[i] == (x.at)(at, c, 0, 0));
        } else {
            assert(second[i] == Scalar::Zero);
        }
    }
    assert(device.values(second) =~= taps);
    lemma_repeats(c, channels);
    lemma_repeats(t, t + 1);
    assert(((0 * channels + c) * 1 + 0) * 1 + 0 == c);
    assert(0 * channels + c == c);
    lemma_flat(bias, channels, 1, 0, c);
    assert(device.value((bias.at)(c, 0, 0, 0)) == weights.bias@[c]);
    let convolved = kernels.depthwise_conv_2d(inputs, p);
    assert((convolved.at)(t, 0, c, 0) == Scalar::Dot(first, second));
    assert(device.value(Scalar::Dot(first, second)) == (device.dot)(
        device.values(first),
        device.values(second),
    ));
    assert(biases.repeated(t, 0, c, 0) == (bias.at)(c, 0, 0, 0));
    reveal_with_fuel(Device::value, 2);
}

/// A convolution of a graph without padding is that of the host.
pub proof fn law_graph_valid_convolution_is_the_host_one(
    device: Device,
    x: TensorValue,
    kernel: TensorValue,
    bias: TensorValue,
    weights: XasrConv1dWeights,
    input: Seq<u32>,
    channels: int,
    input_len: int,
)
    requires
        device.convolves_as_the_host(),
        device.holds_kernel(kernel, bias, weights, channels),
        device.holds(x, input, input_len, channels),
        weights.weight.dims@[0] <= input_len,
        0 <= channels,
    ensures
        device.holds_channels(
            layer_values::depthwise_1d(
                x,
                kernel,
                bias,
                channels,
                input_len,
                weights.weight.dims@[0] as int,
                row_conv(0),
            ),
            valid_rows(device.host, input, channels, input_len, weights),
            input_len - weights.weight.dims@[0] + 1,
            channels,
        ),
{
    let m = device.host;
    let k = weights.weight.dims@[0] as int;
    let len = input_len - k + 1;
    let y = layer_values::depthwise_1d(x, kernel, bias, channels, input_len, k, row_conv(0));
    let at = |c: int, t: int| valid_value(m, input, input_len, weights, c, t);
    lemma_grid_len(channels, len, at);
    lemma_axis(input_len, k, 0);
    lemma_axis(1, 1, 0);
    assert forall|t: int, c: int| 0 <= t < len && 0 <= c < channels implies device.value(
        #[trigger] (y.at)(t, 0, c, 0),
    ) == grid(channels, len, at)[c * len + t] by {
        lemma_grid_at(channels, len, at, c, t);
        lemma_depthwise_value(device, x, kernel, bias, weights, input, channels, input_len, 0, c, t);
        let taps = Seq::new(k as nat, |i: int| tap(input, input_len, c, t + i - 0));
        rows::lemma_part_bounds(c, channels, k);
        assert forall|i: int| 0 <= i < k implies #[trigger] taps[i] == input[c * input_len + t
            + i] by {
            assert(c * input_len + (t + i) == c * input_len + t + i);
        }
        lemma_same_dot(
            m,
            weights.bias@[c],
            input,
            c * input_len + t,
            weights.weight.values@,
            c * k,
            taps,
            part_of(weights.weight.values@, k, c),
            k,
        );
    }
}

/// The length of an axis after a convolution in steps of one.
proof fn lemma_axis(input: int, kernel: int, pad: int)
    ensures
        conv_axis(input, kernel, 1, pad, 1) == input + 2 * pad - kernel + 1,
{
    let n = input + 2 * pad - 1 * (kernel - 1) - 1;
    vstd::arithmetic::div_mod::lemma_fundamental_div_mod_converse(n, 1, n, 0);
}

/// Taps beyond the ends of a channel may as well be zeros.
proof fn lemma_same_value(
    device: Device,
    input: Seq<u32>,
    input_len: int,
    weights: XasrConv1dWeights,
    taps: Seq<u32>,
    kernel: Seq<u32>,
    c: int,
    t: int,
    n: int,
)
    requires
        device.convolves_as_the_host(),
        ({
            let k = weights.weight.dims@[0] as int;
            &&& n <= k
            &&& forall|i: int|
                0 <= i < n ==> #[trigger] taps[i] == tap(input, input_len, c, t + i - k / 2)
            &&& forall|i: int|
                0 <= i < n ==> #[trigger] kernel[i] == weights.weight.values@[c * k + i]
        }),
    ensures
        same_value(device.host, input, input_len, weights, c, t, n) == dot(
            device.host,
            weights.bias@[c],
            taps,
            0,
            kernel,
            0,
            n,
        ),
    decreases n,
{
    let k = weights.weight.dims@[0] as int;
    if n > 0 {
        lemma_same_value(device, input, input_len, weights, taps, kernel, c, t, n - 1);
        let source = t + (n - 1) - k / 2;
        assert(taps[n - 1] == tap(input, input_len, c, source));
        assert(kernel[n - 1] == weights.weight.values@[c * k + (n - 1)]);
        let before = dot(device.host, weights.bias@[c], taps, 0, kernel, 0, n - 1);
        assert(mul_add_of(device.host, before, ZERO_BITS, kernel[n - 1]) == before);
    }
}

/// A convolution of a graph with padding is that of the host.  Its kernel has a
/// middle; without one, the graph would give a frame more.
pub proof fn law_graph_same_convolution_is_the_host_one(
    device: Device,
    x: TensorValue,
    kernel: TensorValue,
    bias: TensorValue,
    weights: XasrConv1dWeights,
    input: Seq<u32>,
    channels: int,
    input_len: int,
)
    requires
        device.convolves_as_the_host(),
        device.holds_kernel(kernel, bias, weights, channels),
        device.holds(x, input, input_len, channels),
        weights.weight.dims@[0] % 2 == 1,
        0 <= channels,
        0 <= input_len,
    ensures
        device.holds_channels(
            layer_values::depthwise_1d(
                x,
                kernel,
                bias,
                channels,
                input_len,
                weights.weight.dims@[0] as int,
                row_conv((weights.weight.dims@[0] / 2) as usize),
            ),
            same_rows(device.host, input, channels, input_len, weights),
            input_len,
            channels,
        ),
{
    let m = device.host;
    let k = weights.weight.dims@[0] as int;
    let pad = (k / 2) as usize;
    let y = layer_values::depthwise_1d(x, kernel, bias, channels, input_len, k, row_conv(pad));
    let at = |c: int, t: int| same_value(m, input, input_len, weights, c, t, k);
    lemma_grid_len(channels, input_len, at);
    lemma_axis(input_len, k, pad as int);
    lemma_axis(1, 1, 0);
    assert(2 * (k / 2) + 1 == k);
    assert forall|t: int, c: int| 0 <= t < input_len && 0 <= c < channels implies device.value(
        #[trigger] (y.at)(t, 0, c, 0),
    ) == grid(channels, input_len, at)[c * input_len + t] by {
        lemma_grid_at(channels, input_len, at, c, t);
        lemma_depthwise_value(
            device,
            x,
            kernel,
            bias,
            weights,
            input,
            channels,
            input_len,
            pad,
            c,
            t,
        );
        let taps = Seq::new(k as nat, |i: int| tap(input, input_len, c, t + i - pad));
        rows::lemma_part_bounds(c, channels, k);
        lemma_same_value(
            device,
            input,
            input_len,
            weights,
            taps,
            part_of(weights.weight.values@, k, c),
            c,
            t,
            k,
        );
    }
}

impl Device {
    /// The tensors hold a convolution module, a cache, and the scales of a chunk.
    pub open spec fn holds_module(
        self,
        graph: GgmlCpuGraphBuilder,
        tensors: XasrConvolutionModuleGraphTensors,
        weights: XasrConvolutionModuleWeights,
        cache: Seq<u32>,
        shape: XasrConvolutionModuleGraphShape,
    ) -> bool {
        let dim = shape.dim as int;
        &&& self.holds_linear(
            graph.value(tensors.in_proj_weight),
            graph.value(tensors.in_proj_bias),
            weights.in_proj,
        )
        &&& weights.in_proj.weight.input_dim == dim
        &&& weights.in_proj.weight.output_dim == 2 * dim
        &&& self.holds_linear(
            graph.value(tensors.out_proj_weight),
            graph.value(tensors.out_proj_bias),
            weights.out_proj,
        )
        &&& weights.out_proj.weight.input_dim == dim
        &&& self.holds_kernel(
            graph.value(tensors.causal_kernel),
            graph.value(tensors.causal_bias),
            weights.depthwise_causal_conv,
            dim,
        )
        &&& self.holds_kernel(
            graph.value(tensors.chunk_kernel),
            graph.value(tensors.chunk_bias),
            weights.depthwise_chunkwise_conv,
            dim,
        )
        &&& self.holds(
            graph.value(tensors.chunk_scale),
            scale_table(self.host, weights, dim, shape.frames as int),
            shape.frames as int,
            dim,
        )
        &&& scale_dims_fit(weights)
        &&& self.holds(graph.value(tensors.cache), cache, shape.cache_len as int, dim)
        &&& self.holds_list(graph.value(tensors.swoosh_r_offset), seq![SWOOSH_R_OFFSET])
        &&& self.holds_list(graph.value(tensors.swoosh_r_shift), seq![SWOOSH_R_SHIFT])
    }
}

/// The dimensions are those of the module: the chunk kernel has a middle, the
/// cache reaches from it to its end, and the causal kernel over the cache.
pub open spec fn shape_fits(
    weights: XasrConvolutionModuleWeights,
    shape: XasrConvolutionModuleGraphShape,
) -> bool {
    &&& shape.dim > 0
    &&& shape.frames > 0
    &&& shape.chunk_kernel_len == weights.depthwise_chunkwise_conv.weight.dims@[0]
    &&& shape.causal_kernel_len == weights.depthwise_causal_conv.weight.dims@[0]
    &&& shape.chunk_kernel_len % 2 == 1
    &&& shape.cache_len == shape.chunk_kernel_len / 2
    &&& shape.causal_kernel_len == shape.cache_len + 1
    &&& shape.cache_len + shape.frames <= usize::MAX
}

/// A matrix and its rows, turned.
proof fn lemma_turned(device: Device, x: TensorValue, held: Seq<u32>, dim: int, frames: int)
    requires
        device.holds(x, held, dim, frames),
        0 <= dim,
        0 <= frames,
    ensures
        device.holds(
            x.transposed().cont(),
            channel_rows(held, frames, dim, None),
            frames,
            dim,
        ),
{
    let full = |c: int, t: int|
        if left_out(None, t) {
            ZERO_BITS
        } else {
            held[t * dim + c]
        };
    let y = x.transposed().cont();
    lemma_grid_len(dim, frames, full);
    assert forall|t: int, c: int| 0 <= t < frames && 0 <= c < dim implies device.value(
        #[trigger] (y.at)(t, c, 0, 0),
    ) == channel_rows(held, frames, dim, None)[c * frames + t] by {
        lemma_grid_at(dim, frames, full, c, t);
        assert(device.value((x.at)(c, t, 0, 0)) == held[t * dim + c]);
    }
}

/// The cache in front of a chunk.
proof fn lemma_cached(
    device: Device,
    cache: TensorValue,
    chunk: TensorValue,
    kept: Seq<u32>,
    held: Seq<u32>,
    cache_len: int,
    frames: int,
    dim: int,
)
    requires
        device.holds(cache, kept, cache_len, dim),
        device.holds(chunk, held, frames, dim),
        0 <= cache_len,
        0 <= frames,
        0 <= dim,
    ensures
        device.holds(
            cache.concat(chunk, 0),
            cached_channels(kept, cache_len, held, frames, dim),
            cache_len + frames,
            dim,
        ),
{
    let part = |c: int| part_of(kept, cache_len, c) + part_of(held, frames, c);
    let y = cache.concat(chunk, 0);
    let len = cache_len + frames;
    assert forall|c: int| 0 <= c < dim implies (#[trigger] part(c)).len() == len by {
        rows::lemma_part_bounds(c, dim, cache_len);
        rows::lemma_part_bounds(c, dim, frames);
    }
    rows::lemma_joined_len(dim, part, len);
    assert forall|t: int, c: int| 0 <= t < len && 0 <= c < dim implies device.value(
        #[trigger] (y.at)(t, c, 0, 0),
    ) == joined(dim, part)[c * len + t] by {
        rows::lemma_joined_at(dim, part, len, c, t);
        rows::lemma_part_bounds(c, dim, cache_len);
        rows::lemma_part_bounds(c, dim, frames);
        if t < cache_len {
            assert(device.value((cache.at)(t, c, 0, 0)) == kept[c * cache_len + t]);
        } else {
            assert(device.value((chunk.at)(t - cache_len, c, 0, 0)) == held[c * frames + (t
                - cache_len)]);
        }
    }
}

/// The last elements of each channel.
proof fn lemma_last(
    device: Device,
    x: TensorValue,
    held: Seq<u32>,
    cache_len: int,
    frames: int,
    dim: int,
)
    requires
        device.holds(x, held, cache_len + frames, dim),
        0 <= cache_len,
        0 <= frames,
        0 <= dim,
    ensures
        device.holds(
            x.window(cache_len, dim, (cache_len + frames) * 4, frames * 4),
            last_inputs(held, cache_len, frames, dim),
            cache_len,
            dim,
        ),
{
    let len = cache_len + frames;
    let part = |c: int| part_of(held, len, c).subrange(frames, frames + cache_len);
    let y = x.window(cache_len, dim, len * 4, frames * 4);
    assert forall|c: int| 0 <= c < dim implies (#[trigger] part(c)).len() == cache_len by {
        rows::lemma_part_bounds(c, dim, len);
    }
    rows::lemma_joined_len(dim, part, cache_len);
    assert forall|t: int, c: int| 0 <= t < cache_len && 0 <= c < dim implies device.value(
        #[trigger] (y.at)(t, c, 0, 0),
    ) == joined(dim, part)[c * cache_len + t] by {
        rows::lemma_joined_at(dim, part, cache_len, c, t);
        rows::lemma_part_bounds(c, dim, len);
        assert(0 * len == 0);
        lemma_window(x, len, dim, cache_len, dim, frames, 0, 1, len * 4, frames * 4, t, c);
        assert(device.value((x.at)(frames + t, c, 0, 0)) == held[c * len + (frames + t)]);
    }
}

/// The two convolutions of a module, mixed.
proof fn lemma_mixed(
    device: Device,
    graph: GgmlCpuGraphBuilder,
    tensors: XasrConvolutionModuleGraphTensors,
    weights: XasrConvolutionModuleWeights,
    cache: Seq<u32>,
    shape: XasrConvolutionModuleGraphShape,
    x: TensorValue,
    channels: Seq<u32>,
    cached: Seq<u32>,
)
    requires
        device.convolves_as_the_host(),
        device.holds_module(graph, tensors, weights, cache, shape),
        shape_fits(weights, shape),
        device.holds(
            tensors.channel_major(graph, x, shape),
            channels,
            shape.frames as int,
            shape.dim as int,
        ),
        device.holds(
            tensors.cached_input(graph, x, shape),
            cached,
            shape.cache_len + shape.frames,
            shape.dim as int,
        ),
    ensures
        device.holds_channels(
            tensors.mixed(graph, x, shape),
            mixed_channels(
                device.host,
                weights,
                valid_rows(
                    device.host,
                    cached,
                    shape.dim as int,
                    shape.cache_len + shape.frames,
                    weights.depthwise_causal_conv,
                ),
                same_rows(
                    device.host,
                    channels,
                    shape.dim as int,
                    shape.frames as int,
                    weights.depthwise_chunkwise_conv,
                ),
                shape.frames as int,
                shape.dim as int,
            ),
            shape.frames as int,
            shape.dim as int,
        ),
{
    let m = device.host;
    let d = shape.dim as int;
    let n = shape.frames as int;
    let len = shape.cache_len + shape.frames;
    law_graph_valid_convolution_is_the_host_one(
        device,
        tensors.cached_input(graph, x, shape),
        graph.value(tensors.causal_kernel),
        graph.value(tensors.causal_bias),
        weights.depthwise_causal_conv,
        cached,
        d,
        len,
    );
    law_graph_same_convolution_is_the_host_one(
        device,
        tensors.channel_major(graph, x, shape),
        graph.value(tensors.chunk_kernel),
        graph.value(tensors.chunk_bias),
        weights.depthwise_chunkwise_conv,
        channels,
        d,
        n,
    );
    let causal = valid_rows(m, cached, d, len, weights.depthwise_causal_conv);
    let chunk = same_rows(m, channels, d, n, weights.depthwise_chunkwise_conv);
    let at = |c: int, t: int|
        (m.add)(causal[c * n + t], (m.mul)(chunk[c * n + t], scale_value(m, weights, c, t, n)));
    lemma_grid_len(d, n, at);
    let y = tensors.mixed(graph, x, shape);
    let causal_value = layer_values::depthwise_1d(
        tensors.cached_input(graph, x, shape),
        graph.value(tensors.causal_kernel),
        graph.value(tensors.causal_bias),
        d,
        len,
        shape.causal_kernel_len as int,
        row_conv(0),
    );
    let chunk_value = layer_values::depthwise_1d(
        tensors.channel_major(graph, x, shape),
        graph.value(tensors.chunk_kernel),
        graph.value(tensors.chunk_bias),
        d,
        n,
        shape.chunk_kernel_len as int,
        row_conv((shape.chunk_kernel_len / 2) as usize),
    );
    let scale = graph.value(tensors.chunk_scale);
    let planes = scale.reshaped(n, 1, d, 1);
    assert(y == causal_value.plus(chunk_value.times(planes)));
    assert forall|t: int, c: int| 0 <= t < n && 0 <= c < d implies device.value(
        #[trigger] (y.at)(t, 0, c, 0),
    ) == grid(d, n, at)[c * n + t] by {
        lemma_grid_at(d, n, at, c, t);
        assert(device.value((causal_value.at)(t, 0, c, 0)) == causal[c * n + t]);
        assert(device.value((chunk_value.at)(t, 0, c, 0)) == chunk[c * n + t]);
        let part = |c: int| Seq::new(n as nat, |t: int| scale_value(m, weights, c, t, n));
        rows::lemma_joined_at(d, part, n, c, t);
        assert(device.value((scale.at)(t, c, 0, 0)) == scale_value(m, weights, c, t, n));
        lemma_flat(scale, n, d, c, t);
        assert(((0 * d + c) * 1 + 0) * n + t == c * n + t);
        lemma_repeats(t, n);
        lemma_repeats(c, d);
        assert(planes.repeated(t, 0, c, 0) == (scale.at)(t, c, 0, 0));
        assert(chunk_value.times(planes).repeated(t, 0, c, 0) == (chunk_value.times(planes).at)(
            t,
            0,
            c,
            0,
        ));
        reveal_with_fuel(Device::value, 3);
    }
}

/// A convolution module of a graph is that of the host: its rows, and the cache
/// that it leaves.
#[verifier::rlimit(40)]
pub proof fn law_graph_convolution_module_is_the_host_one(
    device: Device,
    graph: GgmlCpuGraphBuilder,
    tensors: XasrConvolutionModuleGraphTensors,
    weights: XasrConvolutionModuleWeights,
    cache: Seq<u32>,
    shape: XasrConvolutionModuleGraphShape,
    x: TensorValue,
    held: Seq<u32>,
)
    requires
        device.multiplies_as_the_host(),
        device.activates_as_the_host(),
        device.convolves_as_the_host(),
        device.holds_module(graph, tensors, weights, cache, shape),
        shape_fits(weights, shape),
        device.holds(x, held, shape.dim as int, shape.frames as int),
    ensures
        ({
            let host = convolution_values(
                device.host,
                weights,
                held,
                shape.frames,
                shape.dim,
                Some(cache),
                None,
            );
            &&& host is Ok
            &&& device.holds(
                tensors.applied(graph, x, shape),
                host->Ok_0.rows,
                weights.out_proj.weight.output_dim as int,
                shape.frames as int,
            )
            &&& device.holds(
                tensors.next_cache(graph, x, shape),
                host->Ok_0.cache,
                shape.cache_len as int,
                shape.dim as int,
            )
        }),
{
    reveal(XasrConvolutionModuleGraphTensors::applied);
    reveal(XasrConvolutionModuleGraphTensors::next_cache);
    let m = device.host;
    let d = shape.dim as int;
    let n = shape.frames as int;
    let left = shape.cache_len as int;
    law_graph_gating_is_the_host_gating(
        device,
        graph.value(tensors.in_proj_weight),
        graph.value(tensors.in_proj_bias),
        weights,
        x,
        held,
        shape.dim,
        shape.frames,
    );
    let gated = gated_rows(m, weights, held, n, shape.dim)->Ok_0;
    let projection = layer_values::gated_projection(
        x,
        graph.value(tensors.in_proj_weight),
        graph.value(tensors.in_proj_bias),
        d,
        n,
    );
    lemma_turned(device, projection, gated, d, n);
    let parts = convolution_parts(gated, Some(cache), None, left, n, d);
    lemma_cached(
        device,
        graph.value(tensors.cache),
        tensors.channel_major(graph, x, shape),
        cache,
        parts.channels,
        left,
        n,
        d,
    );
    lemma_last(device, tensors.cached_input(graph, x, shape), parts.cached, left, n, d);
    lemma_mixed(device, graph, tensors, weights, cache, shape, x, parts.channels, parts.cached);
    assert(convolved(m, weights, parts, left, shape.frames, shape.dim) is Ok);
    let depthwise = convolved(m, weights, parts, left, shape.frames, shape.dim)->Ok_0;
    let mixed = tensors.mixed(graph, x, shape);
    let matrix = mixed.cont().reshaped(n, d, 1, 1);
    assert(device.holds(matrix, depthwise, n, d)) by {
        assert forall|t: int, c: int| 0 <= t < n && 0 <= c < d implies device.value(
            #[trigger] (matrix.at)(t, c, 0, 0),
        ) == depthwise[c * n + t] by {
            lemma_flat_channels(mixed.cont(), n, d, c, t);
            assert(((0 * 1 + 0) * d + c) * n + t == c * n + t);
            assert(device.value((mixed.at)(t, 0, c, 0)) == depthwise[c * n + t]);
        }
    }
    lemma_turned(device, matrix, depthwise, n, d);
    let turned = channel_rows(depthwise, d, n, None);
    law_graph_swoosh_r_is_the_host_swoosh_r(
        device,
        matrix.transposed().cont(),
        graph.value(tensors.swoosh_r_offset),
        graph.value(tensors.swoosh_r_shift),
        turned,
        d,
        n,
    );
    law_graph_linear_is_the_host_linear(
        device,
        graph.value(tensors.out_proj_weight),
        graph.value(tensors.out_proj_bias),
        weights.out_proj,
        layer_values::swoosh(
            matrix.transposed().cont(),
            graph.value(tensors.swoosh_r_offset),
            graph.value(tensors.swoosh_r_shift),
        ),
        swooshed_r(m, turned),
        shape.frames,
    );
}

} // verus!
