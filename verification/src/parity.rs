//! Graphs and the host compute the same formulas.
//!
//! A device runs a recorded graph with operations of its own, and sums in an
//! order of its own.  Where its operations agree with those of the host, what a
//! part of the graph denotes is what the host computes for that part.

use vstd::prelude::*;
use crate::bits::ZERO_BITS;
use crate::encoder_upload::{SWOOSH_L_OFFSET, SWOOSH_L_SHIFT, SWOOSH_R_OFFSET, SWOOSH_R_SHIFT};
use crate::encoder_weights::{
    StoredLinear, XasrConvolutionModuleWeights, XasrLinearPairWeights, XasrLinearWithBias,
};
use crate::float_ops::FloatModel;
use crate::graph::GgmlCpuGraphBuilder;
use crate::layer_graph::XasrFeedForwardGraphTensors;
use crate::layer_values::{self, SWOOSH_LINEAR_SCALE};
use crate::reference_conv_module::{gated_row, gated_rows};
use crate::reference_rows::{
    bypassed, each_row, feed_forward_row, feed_forward_rows, linear_rows, normed, normed_row,
    square_sum, sums, swooshed_l, swooshed_r, through_rows,
};
use crate::rows::{self, joined, part_of};
use crate::tensor_value::{Scalar, TensorValue};

verus! {

/// A device: what its leaf tensors hold, and what its operations give.
pub struct Device {
    pub leaves: spec_fn(int, int, int, int, int) -> u32,
    /// What the device shares with the host.
    pub host: FloatModel,
    pub dot: spec_fn(Seq<u32>, Seq<u32>) -> u32,
    pub mean: spec_fn(Seq<u32>) -> u32,
    pub square_root: spec_fn(u32) -> u32,
    pub softplus: spec_fn(u32) -> u32,
    pub masked_softmax: spec_fn(Seq<u32>, Option<Seq<u32>>, u32, u32) -> Seq<u32>,
    pub arg_max: spec_fn(Seq<u32>) -> u32,
}

impl Device {
    /// What the device computes for a symbolic scalar.
    pub open spec fn value(self, scalar: Scalar) -> u32
        decreases scalar,
    {
        let m = self.host;
        match scalar {
            Scalar::Leaf { leaf, i0, i1, i2, i3 } => (self.leaves)(leaf, i0, i1, i2, i3),
            Scalar::Zero => ZERO_BITS,
            Scalar::Sum(a, b) => (m.add)(self.value(*a), self.value(*b)),
            Scalar::Difference(a, b) => (m.sub)(self.value(*a), self.value(*b)),
            Scalar::Product(a, b) => (m.mul)(self.value(*a), self.value(*b)),
            Scalar::Quotient(a, b) => (m.div)(self.value(*a), self.value(*b)),
            Scalar::Scaled(a, factor) => (m.mul)(self.value(*a), factor),
            Scalar::ScaledByExp(a, exponent) => (m.mul)(self.value(*a), (m.exp)(exponent)),
            Scalar::Square(a) => (m.mul)(self.value(*a), self.value(*a)),
            Scalar::SquareRoot(a) => (self.square_root)(self.value(*a)),
            Scalar::Softplus(a) => (self.softplus)(self.value(*a)),
            Scalar::Sigmoid(a) => (m.sigmoid)(self.value(*a)),
            Scalar::Tanh(a) => (m.tanh)(self.value(*a)),
            Scalar::Relu(a) => (m.max)(self.value(*a), ZERO_BITS),
            Scalar::Dot(a, b) => (self.dot)(self.values(a), self.values(b)),
            Scalar::Mean(a) => (self.mean)(self.values(a)),
            Scalar::Softmax { row, mask, scale, max_bias, index } => (self.masked_softmax)(
                self.values(row),
                match mask {
                    Some(entries) => Some(self.values(entries)),
                    None => None,
                },
                scale,
                max_bias,
            )[index],
            Scalar::Gathered { table, selector } => self.values(table)[self.value(
                *selector,
            ) as int],
            Scalar::ArgMax(a) => (self.arg_max)(self.values(a)),
        }
    }

    /// What the device computes for a list of symbolic scalars.
    pub open spec fn values(self, scalars: Seq<Scalar>) -> Seq<u32>
        decreases scalars,
    {
        Seq::new(
            scalars.len(),
            |i: int|
                if 0 <= i < scalars.len() {
                    self.value(scalars[i])
                } else {
                    ZERO_BITS
                },
        )
    }

    /// The tensor is a matrix with these rows.
    pub open spec fn holds(self, x: TensorValue, rows: Seq<u32>, dim: int, frames: int) -> bool {
        &&& x.has_shape(dim, frames, 1, 1)
        &&& rows.len() == frames * dim
        &&& forall|c: int, t: int|
            0 <= c < dim && 0 <= t < frames ==> self.value(#[trigger] (x.at)(c, t, 0, 0))
                == rows[t * dim + c]
    }

    /// The tensor is a list with these entries.
    pub open spec fn holds_list(self, x: TensorValue, entries: Seq<u32>) -> bool {
        &&& x.has_shape(entries.len() as int, 1, 1, 1)
        &&& forall|c: int|
            0 <= c < entries.len() ==> self.value(#[trigger] (x.at)(c, 0, 0, 0)) == entries[c]
    }
}

/// Element `c` of row `t` of a list of rows.
pub proof fn lemma_place(t: int, frames: int, c: int, dim: int)
    requires
        0 <= t < frames,
        0 <= c < dim,
    ensures
        0 <= t * dim + c < frames * dim,
        (t * dim + c) % dim == c,
        (t * dim + c) / dim == t,
        t * dim <= t * dim + c < (t + 1) * dim <= frames * dim,
{
    rows::lemma_part_bounds(t, frames, dim);
    vstd::arithmetic::div_mod::lemma_fundamental_div_mod_converse(t * dim + c, dim, t, c);
}

/// A position within a dimension, and within a dimension of one.
pub proof fn lemma_repeats(c: int, dim: int)
    requires
        0 <= c < dim,
    ensures
        c % dim == c,
        c % 1 == 0,
        c / 1 == c,
        0int % 1 == 0,
        0int / (1int / 1int) == 0,
{
    vstd::arithmetic::div_mod::lemma_small_mod(c as nat, dim as nat);
    vstd::arithmetic::div_mod::lemma_fundamental_div_mod_converse(c, 1, c, 0);
    vstd::arithmetic::div_mod::lemma_fundamental_div_mod_converse(1, 1, 1, 0);
    vstd::arithmetic::div_mod::lemma_fundamental_div_mod_converse(0, 1, 0, 0);
}

/// A row of a matrix on the device.
pub proof fn lemma_held_row(
    device: Device,
    x: TensorValue,
    held: Seq<u32>,
    dim: int,
    frames: int,
    t: int,
)
    requires
        device.holds(x, held, dim, frames),
        0 <= t < frames,
        0 <= dim,
    ensures
        device.values(x.row(t, 0, 0)) == part_of(held, dim, t),
{
    rows::lemma_part_bounds(t, frames, dim);
    assert forall|c: int| 0 <= c < dim implies #[trigger] device.values(x.row(t, 0, 0))[c]
        == part_of(held, dim, t)[c] by {
        assert(x.row(t, 0, 0)[c] == (x.at)(c, t, 0, 0));
    }
    assert(device.values(x.row(t, 0, 0)) =~= part_of(held, dim, t));
}

/// Rows that do not fail follow one another.
pub proof fn lemma_rows_that_succeed(
    n: int,
    row: spec_fn(int) -> Result<Seq<u32>, Seq<char>>,
    width: int,
)
    requires
        n >= 0,
        width >= 0,
        forall|t: int| 0 <= t < n ==> (#[trigger] row(t)) is Ok && row(t)->Ok_0.len() == width,
    ensures
        each_row(n, row) is Ok,
        each_row(n, row)->Ok_0 == joined(n, |t: int| row(t)->Ok_0),
        each_row(n, row)->Ok_0.len() == n * width,
    decreases n,
{
    let part = |t: int| row(t)->Ok_0;
    if n > 0 {
        lemma_rows_that_succeed(n - 1, row, width);
        assert(row(n - 1) is Ok);
    }
    assert forall|t: int| 0 <= t < n implies (#[trigger] part(t)).len() == width by {
        assert(row(t) is Ok);
    }
    rows::lemma_joined_len(n, part, width);
}

impl Device {
    /// The curve of the activations is that of the host.
    pub open spec fn activates_as_the_host(self) -> bool {
        forall|v: u32| #[trigger] (self.softplus)(v) == (self.host.softplus)(v)
    }

    /// A matrix times a row, plus a bias.
    pub open spec fn product(self, weight: StoredLinear, row: Seq<u32>, bias: Seq<u32>) -> Seq<u32> {
        Seq::new(
            weight.output_dim as nat,
            |r: int|
                (self.host.add)(
                    (self.dot)(part_of(weight.values@, weight.input_dim as int, r), row),
                    bias[r],
                ),
        )
    }

    /// Products with matrices of floats are those of the host.
    pub open spec fn multiplies_as_the_host(self) -> bool {
        forall|weight: StoredLinear, row: Seq<u32>, bias: Seq<u32>|
            row.len() == weight.input_dim && bias.len() == weight.output_dim
                && weight.values@.len() == weight.output_dim * weight.input_dim
                ==> #[trigger] (self.host.apply_linear)(weight, row, Some(bias)) == Ok::<
                Seq<u32>,
                Seq<char>,
            >(self.product(weight, row, bias))
    }

    /// The two tensors hold a matrix of floats and its bias.
    pub open spec fn holds_linear(
        self,
        weight: TensorValue,
        bias: TensorValue,
        linear: XasrLinearWithBias,
    ) -> bool {
        &&& self.holds(
            weight,
            linear.weight.values@,
            linear.weight.input_dim as int,
            linear.weight.output_dim as int,
        )
        &&& self.holds_list(bias, linear.bias@)
        &&& linear.bias@.len() == linear.weight.output_dim
    }
}

/// The activation of a graph is that of the host.
pub proof fn law_graph_swoosh_l_is_the_host_swoosh_l(
    device: Device,
    x: TensorValue,
    offset: TensorValue,
    shift: TensorValue,
    held: Seq<u32>,
    dim: int,
    frames: int,
)
    requires
        device.activates_as_the_host(),
        device.holds(x, held, dim, frames),
        device.holds_list(offset, seq![SWOOSH_L_OFFSET]),
        device.holds_list(shift, seq![SWOOSH_L_SHIFT]),
    ensures
        device.holds(
            layer_values::swoosh(x, offset, shift),
            swooshed_l(device.host, held),
            dim,
            frames,
        ),
{
    let y = layer_values::swoosh(x, offset, shift);
    assert forall|c: int, t: int| 0 <= c < dim && 0 <= t < frames implies device.value(
        #[trigger] (y.at)(c, t, 0, 0),
    ) == swooshed_l(device.host, held)[t * dim + c] by {
        lemma_place(t, frames, c, dim);
        assert(device.value((x.at)(c, t, 0, 0)) == held[t * dim + c]);
        assert(device.value((offset.at)(0, 0, 0, 0)) == SWOOSH_L_OFFSET);
        assert(device.value((shift.at)(0, 0, 0, 0)) == SWOOSH_L_SHIFT);
        lemma_swoosh_value(device, x, offset, shift, c, t);
    }
}

proof fn lemma_swoosh_value(
    device: Device,
    x: TensorValue,
    offset: TensorValue,
    shift: TensorValue,
    c: int,
    t: int,
)
    requires
        offset.has_shape(1, 1, 1, 1),
        shift.has_shape(1, 1, 1, 1),
        x.ne2 == 1,
        x.ne3 == 1,
        0 <= c < x.ne0,
        0 <= t < x.ne1,
    ensures
        device.value((layer_values::swoosh(x, offset, shift).at)(c, t, 0, 0)) == (device.host.sub)(
            (device.host.sub)(
                (device.softplus)(
                    (device.host.sub)(
                        device.value((x.at)(c, t, 0, 0)),
                        device.value((offset.at)(0, 0, 0, 0)),
                    ),
                ),
                (device.host.mul)(device.value((x.at)(c, t, 0, 0)), SWOOSH_LINEAR_SCALE),
            ),
            device.value((shift.at)(0, 0, 0, 0)),
        ),
{
    lemma_repeats(c, x.ne0);
    lemma_repeats(t, x.ne1);
    reveal_with_fuel(Device::value, 5);
}

/// The activation of a graph is that of the host.
pub proof fn law_graph_swoosh_r_is_the_host_swoosh_r(
    device: Device,
    x: TensorValue,
    offset: TensorValue,
    shift: TensorValue,
    held: Seq<u32>,
    dim: int,
    frames: int,
)
    requires
        device.activates_as_the_host(),
        device.holds(x, held, dim, frames),
        device.holds_list(offset, seq![SWOOSH_R_OFFSET]),
        device.holds_list(shift, seq![SWOOSH_R_SHIFT]),
    ensures
        device.holds(
            layer_values::swoosh(x, offset, shift),
            swooshed_r(device.host, held),
            dim,
            frames,
        ),
{
    let y = layer_values::swoosh(x, offset, shift);
    assert forall|c: int, t: int| 0 <= c < dim && 0 <= t < frames implies device.value(
        #[trigger] (y.at)(c, t, 0, 0),
    ) == swooshed_r(device.host, held)[t * dim + c] by {
        lemma_place(t, frames, c, dim);
        assert(device.value((x.at)(c, t, 0, 0)) == held[t * dim + c]);
        assert(device.value((offset.at)(0, 0, 0, 0)) == SWOOSH_R_OFFSET);
        assert(device.value((shift.at)(0, 0, 0, 0)) == SWOOSH_R_SHIFT);
        lemma_swoosh_value(device, x, offset, shift, c, t);
    }
}

/// The bypass of a graph is that of the host.
pub proof fn law_graph_bypass_is_the_host_bypass(
    device: Device,
    original: TensorValue,
    current: TensorValue,
    scale: TensorValue,
    original_rows: Seq<u32>,
    current_rows: Seq<u32>,
    scales: Seq<u32>,
    dim: usize,
    frames: usize,
)
    requires
        device.holds(original, original_rows, dim as int, frames as int),
        device.holds(current, current_rows, dim as int, frames as int),
        device.holds_list(scale, scales),
        scales.len() == dim,
    ensures
        bypassed(device.host, original_rows, current_rows, scales, frames, dim) is Ok,
        device.holds(
            layer_values::bypass(original, current, scale),
            bypassed(device.host, original_rows, current_rows, scales, frames, dim)->Ok_0,
            dim as int,
            frames as int,
        ),
{
    let y = layer_values::bypass(original, current, scale);
    let rows = bypassed(device.host, original_rows, current_rows, scales, frames, dim)->Ok_0;
    assert forall|c: int, t: int| 0 <= c < dim && 0 <= t < frames implies device.value(
        #[trigger] (y.at)(c, t, 0, 0),
    ) == rows[t * dim + c] by {
        lemma_place(t, frames as int, c, dim as int);
        assert(device.value((original.at)(c, t, 0, 0)) == original_rows[t * dim + c]);
        assert(device.value((current.at)(c, t, 0, 0)) == current_rows[t * dim + c]);
        assert(device.value((scale.at)(c, 0, 0, 0)) == scales[c]);
        lemma_repeats(c, dim as int);
        lemma_repeats(t, frames as int);
        reveal_with_fuel(Device::value, 4);
    }
}

/// The sum of two matrices of a graph is that of the host.
pub proof fn law_graph_sum_is_the_host_sum(
    device: Device,
    left: TensorValue,
    right: TensorValue,
    left_rows: Seq<u32>,
    right_rows: Seq<u32>,
    dim: int,
    frames: int,
)
    requires
        device.holds(left, left_rows, dim, frames),
        device.holds(right, right_rows, dim, frames),
    ensures
        device.holds(
            left.plus(right),
            sums(device.host, left_rows, right_rows),
            dim,
            frames,
        ),
{
    let y = left.plus(right);
    let rows = sums(device.host, left_rows, right_rows);
    assert forall|c: int, t: int| 0 <= c < dim && 0 <= t < frames implies device.value(
        #[trigger] (y.at)(c, t, 0, 0),
    ) == rows[t * dim + c] by {
        lemma_place(t, frames, c, dim);
        assert(device.value((left.at)(c, t, 0, 0)) == left_rows[t * dim + c]);
        assert(device.value((right.at)(c, t, 0, 0)) == right_rows[t * dim + c]);
        lemma_repeats(c, dim);
        lemma_repeats(t, frames);
        reveal_with_fuel(Device::value, 2);
    }
}

/// A row of a linear layer on the device.
pub proof fn lemma_linear_row(
    device: Device,
    weight: TensorValue,
    bias: TensorValue,
    linear: XasrLinearWithBias,
    x: TensorValue,
    held: Seq<u32>,
    frames: int,
    t: int,
)
    requires
        device.multiplies_as_the_host(),
        device.holds_linear(weight, bias, linear),
        device.holds(x, held, linear.weight.input_dim as int, frames),
        0 <= t < frames,
    ensures
        (device.host.apply_linear)(
            linear.weight,
            part_of(held, linear.weight.input_dim as int, t),
            Some(linear.bias@),
        ) is Ok,
        ({
            let row = (device.host.apply_linear)(
                linear.weight,
                part_of(held, linear.weight.input_dim as int, t),
                Some(linear.bias@),
            )->Ok_0;
            let y = layer_values::linear(weight, x, bias);
            &&& row.len() == linear.weight.output_dim
            &&& forall|r: int|
                0 <= r < linear.weight.output_dim ==> device.value(#[trigger] (y.at)(r, t, 0, 0))
                    == row[r]
        }),
{
    let input_dim = linear.weight.input_dim as int;
    let output_dim = linear.weight.output_dim as int;
    let taken = part_of(held, input_dim, t);
    rows::lemma_part_bounds(t, frames, input_dim);
    let row = device.product(linear.weight, taken, linear.bias@);
    assert((device.host.apply_linear)(linear.weight, taken, Some(linear.bias@)) == Ok::<
        Seq<u32>,
        Seq<char>,
    >(row));
    let y = layer_values::linear(weight, x, bias);
    lemma_held_row(device, x, held, input_dim, frames, t);
    assert forall|r: int| 0 <= r < output_dim implies device.value(#[trigger] (y.at)(r, t, 0, 0))
        == row[r] by {
        lemma_held_row(device, weight, linear.weight.values@, input_dim, output_dim, r);
        assert(device.value((bias.at)(r, 0, 0, 0)) == linear.bias@[r]);
        lemma_repeats(r, output_dim);
        lemma_repeats(t, frames);
        reveal_with_fuel(Device::value, 2);
    }
}

/// A linear layer of a graph is that of the host.
pub proof fn law_graph_linear_is_the_host_linear(
    device: Device,
    weight: TensorValue,
    bias: TensorValue,
    linear: XasrLinearWithBias,
    x: TensorValue,
    held: Seq<u32>,
    frames: usize,
)
    requires
        device.multiplies_as_the_host(),
        device.holds_linear(weight, bias, linear),
        device.holds(x, held, linear.weight.input_dim as int, frames as int),
    ensures
        linear_rows(device.host, linear, held, frames, linear.weight.input_dim) is Ok,
        device.holds(
            layer_values::linear(weight, x, bias),
            linear_rows(device.host, linear, held, frames, linear.weight.input_dim)->Ok_0,
            linear.weight.output_dim as int,
            frames as int,
        ),
{
    let input_dim = linear.weight.input_dim as int;
    let width = linear.weight.output_dim as int;
    let row = through_rows(device.host, linear, held, input_dim);
    let part = |t: int| row(t)->Ok_0;
    let y = layer_values::linear(weight, x, bias);
    assert forall|t: int| 0 <= t < frames implies (#[trigger] row(t)) is Ok && row(t)->Ok_0.len()
        == width by {
        lemma_linear_row(device, weight, bias, linear, x, held, frames as int, t);
    }
    lemma_rows_that_succeed(frames as int, row, width);
    assert forall|c: int, t: int| 0 <= c < width && 0 <= t < frames implies device.value(
        #[trigger] (y.at)(c, t, 0, 0),
    ) == joined(frames as int, part)[t * width + c] by {
        lemma_linear_row(device, weight, bias, linear, x, held, frames as int, t);
        assert forall|i: int| 0 <= i < frames implies (#[trigger] part(i)).len() == width by {
            assert(row(i) is Ok);
        }
        rows::lemma_joined_at(frames as int, part, width, t, c);
    }
}

/// Equal rows follow one another equally.
pub proof fn lemma_same_rows(
    n: int,
    f: spec_fn(int) -> Result<Seq<u32>, Seq<char>>,
    g: spec_fn(int) -> Result<Seq<u32>, Seq<char>>,
)
    requires
        forall|t: int| 0 <= t < n ==> #[trigger] f(t) == g(t),
    ensures
        each_row(n, f) == each_row(n, g),
    decreases n,
{
    if n > 0 {
        lemma_same_rows(n - 1, f, g);
        assert(f(n - 1) == g(n - 1));
    }
}

impl Device {
    /// The tensors hold the matrices and biases of a pair, and the constants of
    /// the activation between them.
    pub open spec fn holds_feed_forward(
        self,
        graph: GgmlCpuGraphBuilder,
        tensors: XasrFeedForwardGraphTensors,
        weights: XasrLinearPairWeights,
    ) -> bool {
        &&& self.holds_linear(
            graph.value(tensors.in_proj_weight),
            graph.value(tensors.in_proj_bias),
            weights.in_proj,
        )
        &&& self.holds_linear(
            graph.value(tensors.out_proj_weight),
            graph.value(tensors.out_proj_bias),
            weights.out_proj,
        )
        &&& weights.out_proj.weight.input_dim == weights.in_proj.weight.output_dim
        &&& self.holds_list(graph.value(tensors.swoosh_l_offset), seq![SWOOSH_L_OFFSET])
        &&& self.holds_list(graph.value(tensors.swoosh_l_shift), seq![SWOOSH_L_SHIFT])
    }
}

/// The feed-forward module of a graph is that of the host.
pub proof fn law_graph_feed_forward_is_the_host_feed_forward(
    device: Device,
    graph: GgmlCpuGraphBuilder,
    tensors: XasrFeedForwardGraphTensors,
    weights: XasrLinearPairWeights,
    x: TensorValue,
    held: Seq<u32>,
    dim: usize,
    frames: usize,
)
    requires
        device.multiplies_as_the_host(),
        device.activates_as_the_host(),
        device.holds_feed_forward(graph, tensors, weights),
        weights.in_proj.weight.input_dim == dim,
        device.holds(x, held, dim as int, frames as int),
    ensures
        feed_forward_rows(device.host, weights, held, frames, dim) is Ok,
        device.holds(
            tensors.applied(graph, x),
            feed_forward_rows(device.host, weights, held, frames, dim)->Ok_0,
            weights.out_proj.weight.output_dim as int,
            frames as int,
        ),
{
    reveal(XasrFeedForwardGraphTensors::applied);
    let m = device.host;
    let hidden_dim = weights.in_proj.weight.output_dim;
    let n = frames as int;
    let w = hidden_dim as int;
    law_graph_linear_is_the_host_linear(
        device,
        graph.value(tensors.in_proj_weight),
        graph.value(tensors.in_proj_bias),
        weights.in_proj,
        x,
        held,
        frames,
    );
    let inner = layer_values::linear(
        graph.value(tensors.in_proj_weight),
        x,
        graph.value(tensors.in_proj_bias),
    );
    let hidden = linear_rows(m, weights.in_proj, held, frames, dim)->Ok_0;
    law_graph_swoosh_l_is_the_host_swoosh_l(
        device,
        inner,
        graph.value(tensors.swoosh_l_offset),
        graph.value(tensors.swoosh_l_shift),
        hidden,
        w,
        n,
    );
    let active = swooshed_l(m, hidden);
    let activated = layer_values::swoosh(
        inner,
        graph.value(tensors.swoosh_l_offset),
        graph.value(tensors.swoosh_l_shift),
    );
    law_graph_linear_is_the_host_linear(
        device,
        graph.value(tensors.out_proj_weight),
        graph.value(tensors.out_proj_bias),
        weights.out_proj,
        activated,
        active,
        frames,
    );
    let row = through_rows(m, weights.in_proj, held, dim as int);
    let part = |t: int| row(t)->Ok_0;
    let whole = |t: int| feed_forward_row(m, weights, part_of(held, dim as int, t));
    let later = through_rows(m, weights.out_proj, active, w);
    assert forall|t: int| 0 <= t < n implies (#[trigger] row(t)) is Ok && row(t)->Ok_0.len()
        == w by {
        lemma_linear_row(
            device,
            graph.value(tensors.in_proj_weight),
            graph.value(tensors.in_proj_bias),
            weights.in_proj,
            x,
            held,
            n,
            t,
        );
    }
    lemma_rows_that_succeed(n, row, w);
    assert forall|i: int| 0 <= i < n implies (#[trigger] part(i)).len() == w by {
        assert(row(i) is Ok);
    }
    assert forall|t: int| 0 <= t < n implies #[trigger] whole(t) == later(t) by {
        assert(row(t) is Ok);
        rows::lemma_part_bounds(t, n, w);
        assert forall|c: int| 0 <= c < w implies #[trigger] part_of(active, w, t)[c]
            == swooshed_l(m, part(t))[c] by {
            rows::lemma_joined_at(n, part, w, t, c);
        }
        assert(part_of(active, w, t) =~= swooshed_l(m, part(t)));
    }
    lemma_same_rows(n, whole, later);
}

impl Device {
    /// Squared distances to a bias.
    pub open spec fn squares(self, row: Seq<u32>, bias: Seq<u32>) -> Seq<u32> {
        Seq::new(
            row.len(),
            |c: int|
                (self.host.mul)((self.host.sub)(row[c], bias[c]), (self.host.sub)(row[c], bias[c])),
        )
    }

    /// Norms are those of the host.
    pub open spec fn norms_as_the_host(self) -> bool {
        let m = self.host;
        &&& forall|row: Seq<u32>, bias: Seq<u32>|
            (self.mean)(#[trigger] self.squares(row, bias)) == (m.div)(
                square_sum(m, row, bias, row.len() as int),
                (m.from_count)(row.len() as int),
            )
        &&& forall|v: u32, mean: u32, factor: u32|
            #[trigger] (m.mul)((m.div)(v, (self.square_root)(mean)), factor) == (m.mul)(
                v,
                (m.mul)((m.inverse_sqrt)(mean), factor),
            )
    }
}

/// The norm of a graph is that of the host.
pub proof fn law_graph_bias_norm_is_the_host_bias_norm(
    device: Device,
    x: TensorValue,
    bias: TensorValue,
    held: Seq<u32>,
    biases: Seq<u32>,
    log_scale: u32,
    dim: usize,
    frames: usize,
)
    requires
        device.norms_as_the_host(),
        device.holds(x, held, dim as int, frames as int),
        device.holds_list(bias, biases),
        biases.len() == dim,
        dim > 0,
    ensures
        normed(device.host, held, dim, biases, log_scale) is Ok,
        device.holds(
            layer_values::bias_norm(x, bias, log_scale),
            normed(device.host, held, dim, biases, log_scale)->Ok_0,
            dim as int,
            frames as int,
        ),
{
    let m = device.host;
    let d = dim as int;
    let n = frames as int;
    vstd::arithmetic::div_mod::lemma_fundamental_div_mod_converse(held.len() as int, d, n, 0);
    let part = |t: int| normed_row(m, part_of(held, d, t), biases, log_scale);
    assert forall|i: int| 0 <= i < n implies (#[trigger] part(i)).len() == d by {
        rows::lemma_part_bounds(i, n, d);
    }
    rows::lemma_joined_len(n, part, d);
    let y = layer_values::bias_norm(x, bias, log_scale);
    assert forall|c: int, t: int| 0 <= c < d && 0 <= t < n implies device.value(
        #[trigger] (y.at)(c, t, 0, 0),
    ) == joined(n, part)[t * d + c] by {
        rows::lemma_joined_at(n, part, d, t, c);
        rows::lemma_part_bounds(t, n, d);
        lemma_place(t, n, c, d);
        let row = part_of(held, d, t);
        let squared = x.minus(bias).squared();
        assert forall|k: int| 0 <= k < d implies #[trigger] device.values(squared.row(t, 0, 0))[k]
            == device.squares(row, biases)[k] by {
            lemma_repeats(k, d);
            lemma_repeats(t, n);
            lemma_place(t, n, k, d);
            assert(squared.row(t, 0, 0)[k] == (squared.at)(k, t, 0, 0));
            assert(device.value((x.at)(k, t, 0, 0)) == held[t * d + k]);
            assert(device.value((bias.at)(k, 0, 0, 0)) == biases[k]);
            assert(row[k] == held[t * d + k]);
            let centered = (x.minus(bias).at)(k, t, 0, 0);
            assert(device.value(centered) == (m.sub)(row[k], biases[k])) by {
                reveal_with_fuel(Device::value, 2);
            }
            assert(device.value(Scalar::Square(Box::new(centered))) == (m.mul)(
                device.value(centered),
                device.value(centered),
            )) by {
                reveal_with_fuel(Device::value, 2);
            }
        }
        assert(device.values(squared.row(t, 0, 0)) =~= device.squares(row, biases));
        lemma_repeats(c, d);
        lemma_repeats(t, n);
        assert(device.value((x.at)(c, t, 0, 0)) == held[t * d + c]);
        assert(row[c] == held[t * d + c]);
        let mean = squared.mean_rows();
        assert(device.value((mean.at)(0, t, 0, 0)) == (device.mean)(
            device.squares(row, biases),
        ));
        assert(mean.square_root().repeated(c, t, 0, 0) == (mean.square_root().at)(0, t, 0, 0));
        reveal_with_fuel(Device::value, 4);
    }
}

/// The element at a row-major position of a matrix.
pub proof fn lemma_flat(x: TensorValue, dim: int, frames: int, r: int, c: int)
    requires
        x.has_shape(dim, frames, 1, 1),
        0 <= r < frames,
        0 <= c < dim,
    ensures
        x.flat(r * dim + c) == (x.at)(c, r, 0, 0),
{
    lemma_place(r, frames, c, dim);
    lemma_repeats(r, frames);
    let k = r * dim + c;
    assert(dim * frames == frames * dim) by (nonlinear_arith);
    vstd::arithmetic::div_mod::lemma_fundamental_div_mod_converse(k, dim * frames, 0, k);
    assert(dim * frames * 1 == dim * frames);
}

/// A window on a matrix: `width` columns from column `first`, every `step`-th row
/// from row `top`.
pub proof fn lemma_window(
    x: TensorValue,
    dim: int,
    frames: int,
    width: int,
    count: int,
    first: int,
    top: int,
    step: int,
    stride: int,
    offset: int,
    c: int,
    t: int,
)
    requires
        x.has_shape(dim, frames, 1, 1),
        0 <= c < width,
        0 <= t < count,
        0 <= first,
        first + width <= dim,
        0 <= top + t * step < frames,
        stride == (dim * 4) * step,
        offset == (top * dim + first) * 4,
    ensures
        (x.window(width, count, stride, offset).at)(c, t, 0, 0) == (x.at)(
            first + c,
            top + t * step,
            0,
            0,
        ),
{
    let r = top + t * step;
    assert(offset + t * stride == (r * dim + first) * 4) by (nonlinear_arith)
        requires
            r == top + t * step,
            stride == (dim * 4) * step,
            offset == (top * dim + first) * 4,
    ;
    vstd::arithmetic::div_mod::lemma_fundamental_div_mod_converse(
        offset + t * stride,
        4,
        r * dim + first,
        0,
    );
    assert(0 * (stride * count) == 0) by (nonlinear_arith);
    lemma_flat(x, dim, frames, r, first + c);
}

/// The gated projection of a graph is that of the host.
pub proof fn law_graph_gating_is_the_host_gating(
    device: Device,
    weight: TensorValue,
    bias: TensorValue,
    weights: XasrConvolutionModuleWeights,
    x: TensorValue,
    held: Seq<u32>,
    dim: usize,
    frames: usize,
)
    requires
        device.multiplies_as_the_host(),
        device.holds_linear(weight, bias, weights.in_proj),
        weights.in_proj.weight.input_dim == dim,
        weights.in_proj.weight.output_dim == 2 * dim,
        device.holds(x, held, dim as int, frames as int),
    ensures
        gated_rows(device.host, weights, held, frames as int, dim) is Ok,
        device.holds(
            layer_values::gated_projection(x, weight, bias, dim as int, frames as int),
            gated_rows(device.host, weights, held, frames as int, dim)->Ok_0,
            dim as int,
            frames as int,
        ),
{
    let m = device.host;
    let d = dim as int;
    let n = frames as int;
    let row = |t: int| gated_row(m, weights, part_of(held, d, t), dim);
    let part = |t: int| row(t)->Ok_0;
    let y = layer_values::gated_projection(x, weight, bias, d, n);
    let projected = layer_values::linear(weight, x, bias);
    assert forall|t: int| 0 <= t < n implies (#[trigger] row(t)) is Ok && row(t)->Ok_0.len()
        == d by {
        lemma_linear_row(device, weight, bias, weights.in_proj, x, held, n, t);
    }
    lemma_rows_that_succeed(n, row, d);
    assert forall|i: int| 0 <= i < n implies (#[trigger] part(i)).len() == d by {
        assert(row(i) is Ok);
    }
    assert forall|c: int, t: int| 0 <= c < d && 0 <= t < n implies device.value(
        #[trigger] (y.at)(c, t, 0, 0),
    ) == joined(n, part)[t * d + c] by {
        rows::lemma_joined_at(n, part, d, t, c);
        assert(row(t) is Ok);
        lemma_linear_row(device, weight, bias, weights.in_proj, x, held, n, t);
        let stride = (d * 2) * 4;
        lemma_window(projected, 2 * d, n, d, n, 0, 0, 1, stride, 0, c, t);
        lemma_window(projected, 2 * d, n, d, n, d, 0, 1, stride, d * 4, c, t);
        lemma_repeats(c, d);
        lemma_repeats(t, n);
        assert(device.value((projected.at)(c, t, 0, 0)) == device.value(
            (projected.at)(0 + c, 0 + t * 1, 0, 0),
        ));
        reveal_with_fuel(Device::value, 3);
    }
}

} // verus!
