//! The stages of the encoder as graph operations.

use vstd::prelude::*;
use crate::bits;
use crate::float_ops;
use crate::float_ops::FloatOps;
use crate::graph::{GgmlCpuGraphBuilder, GgmlCpuGraphError, GgmlCpuTensor};
use crate::layer_values;
use crate::layer_values::SWOOSH_LINEAR_SCALE;
use crate::softmax;
use crate::softmax::{exponentials_and_sum, softmax_row};
use crate::tensor_value::{ConvParams, TensorValue, ELEMENT_BYTES};

verus! {

/// The error that refuses a graph.
pub open spec fn refusal_error(reason: &'static str) -> GgmlCpuGraphError {
    GgmlCpuGraphError::UnsupportedInputs { reason }
}

/// What is promised of a function that adds one result tensor to a graph: the
/// graph only grows; the call fails exactly with the given reason, if there is
/// one, and else returns a dense tensor with the given value.
pub open spec fn builds(
    result: Result<GgmlCpuTensor, GgmlCpuGraphError>,
    before: GgmlCpuGraphBuilder,
    after: GgmlCpuGraphBuilder,
    refusal: Option<&'static str>,
    value: TensorValue,
) -> bool {
    &&& after.grew_from(before)
    &&& match refusal {
        Some(reason) => result == Err::<GgmlCpuTensor, GgmlCpuGraphError>(refusal_error(reason)),
        None => result is Ok && after.has_dense(result->Ok_0) && after.value(result->Ok_0) == value,
    }
}

/// `left * right`, or the error with this reason where it does not fit.
pub fn product_or(left: usize, right: usize, reason: &'static str) -> (result: Result<
    usize,
    GgmlCpuGraphError,
>)
    ensures
        match result {
            Ok(value) => value == left * right,
            Err(error) => left * right > usize::MAX && error == refusal_error(reason),
        },
{
    match left.checked_mul(right) {
        Some(value) => Ok(value),
        None => Err(GgmlCpuGraphError::UnsupportedInputs { reason }),
    }
}

/// `left + right`, or the error with this reason where it does not fit.
pub fn sum_or(left: usize, right: usize, reason: &'static str) -> (result: Result<
    usize,
    GgmlCpuGraphError,
>)
    ensures
        match result {
            Ok(value) => value == left + right,
            Err(error) => left + right > usize::MAX && error == refusal_error(reason),
        },
{
    match left.checked_add(right) {
        Some(value) => Ok(value),
        None => Err(GgmlCpuGraphError::UnsupportedInputs { reason }),
    }
}

/// The least number of groups of `size` that hold `count`.
pub fn div_ceil(count: usize, size: usize) -> (groups: usize)
    requires
        size > 0,
    ensures
        groups == ceil_div(count as int, size as int),
{
    let whole = count / size;
    if count % size > 0 {
        proof {
            lemma_ceil_div_step(count as int, size as int);
        }
        whole + 1
    } else {
        proof {
            lemma_ceil_div_step(count as int, size as int);
        }
        whole
    }
}

/// Quotient rounded up.
pub open spec fn ceil_div(count: int, size: int) -> int {
    (count + size - 1) / size
}

proof fn lemma_ceil_div_step(count: int, size: int)
    requires
        size > 0,
        count >= 0,
    ensures
        count % size > 0 ==> ceil_div(count, size) == count / size + 1 && count / size + 1 <= count,
        count % size == 0 ==> ceil_div(count, size) == count / size,
{
    let q = count / size;
    let r = count % size;
    vstd::arithmetic::div_mod::lemma_fundamental_div_mod(count, size);
    if r > 0 {
        assert(count + size - 1 == size * (q + 1) + (r - 1)) by (nonlinear_arith)
            requires
                count == size * q + r,
        ;
        vstd::arithmetic::div_mod::lemma_fundamental_div_mod_converse(
            count + size - 1,
            size,
            q + 1,
            r - 1,
        );
        assert(q + 1 <= count) by (nonlinear_arith)
            requires
                count == size * q + r,
                r > 0,
                size >= 1,
                q >= 0,
        ;
    } else {
        assert(count + size - 1 == size * q + (size - 1));
        vstd::arithmetic::div_mod::lemma_fundamental_div_mod_converse(
            count + size - 1,
            size,
            q,
            size - 1,
        );
    }
}

/// Adds a linear layer.
pub fn apply_linear_graph(
    graph: &mut GgmlCpuGraphBuilder,
    weight: GgmlCpuTensor,
    input: GgmlCpuTensor,
    bias: GgmlCpuTensor,
) -> (tensor: GgmlCpuTensor)
    requires
        old(graph).has(weight),
        old(graph).has(input),
        old(graph).has(bias),
    ensures
        final(graph).grew_from(*old(graph)),
        final(graph).has_dense(tensor),
        final(graph).value(tensor) == layer_values::linear(
            old(graph).value(weight),
            old(graph).value(input),
            old(graph).value(bias),
        ),
{
    let projected = graph.mul_mat(weight, input);
    graph.add(projected, bias)
}

/// Adds a Swoosh activation.
pub fn apply_swoosh_graph(
    graph: &mut GgmlCpuGraphBuilder,
    input: GgmlCpuTensor,
    offset: GgmlCpuTensor,
    shift: GgmlCpuTensor,
) -> (tensor: GgmlCpuTensor)
    requires
        old(graph).has(input),
        old(graph).has(offset),
        old(graph).has(shift),
    ensures
        final(graph).grew_from(*old(graph)),
        final(graph).has_dense(tensor),
        final(graph).value(tensor) == layer_values::swoosh(
            old(graph).value(input),
            old(graph).value(offset),
            old(graph).value(shift),
        ),
{
    let shifted = graph.sub(input, offset);
    let softplus = graph.softplus(shifted);
    let linear = graph.scale(input, SWOOSH_LINEAR_SCALE);
    let without_linear = graph.sub(softplus, linear);
    graph.sub(without_linear, shift)
}

/// Adds SwooshR.
pub fn apply_swoosh_r_graph(
    graph: &mut GgmlCpuGraphBuilder,
    input: GgmlCpuTensor,
    offset: GgmlCpuTensor,
    shift: GgmlCpuTensor,
) -> (tensor: GgmlCpuTensor)
    requires
        old(graph).has(input),
        old(graph).has(offset),
        old(graph).has(shift),
    ensures
        final(graph).grew_from(*old(graph)),
        final(graph).has_dense(tensor),
        final(graph).value(tensor) == layer_values::swoosh(
            old(graph).value(input),
            old(graph).value(offset),
            old(graph).value(shift),
        ),
{
    apply_swoosh_graph(graph, input, offset, shift)
}

/// Adds SwooshL.
pub fn apply_swoosh_l_graph(
    graph: &mut GgmlCpuGraphBuilder,
    input: GgmlCpuTensor,
    offset: GgmlCpuTensor,
    shift: GgmlCpuTensor,
) -> (tensor: GgmlCpuTensor)
    requires
        old(graph).has(input),
        old(graph).has(offset),
        old(graph).has(shift),
    ensures
        final(graph).grew_from(*old(graph)),
        final(graph).has_dense(tensor),
        final(graph).value(tensor) == layer_values::swoosh(
            old(graph).value(input),
            old(graph).value(offset),
            old(graph).value(shift),
        ),
{
    apply_swoosh_graph(graph, input, offset, shift)
}

/// Why a BiasNorm is refused.
pub open spec fn bias_norm_refusal(log_scale: u32) -> Option<&'static str> {
    if !bits::finite(log_scale) {
        Some("xasr BiasNorm log_scale must be finite")
    } else {
        None
    }
}

/// Adds a BiasNorm.
pub fn apply_bias_norm_graph(
    graph: &mut GgmlCpuGraphBuilder,
    input: GgmlCpuTensor,
    bias: GgmlCpuTensor,
    log_scale: u32,
) -> (result: Result<GgmlCpuTensor, GgmlCpuGraphError>)
    requires
        old(graph).has(input),
        old(graph).has(bias),
    ensures
        builds(
            result,
            *old(graph),
            *final(graph),
            bias_norm_refusal(log_scale),
            layer_values::bias_norm(old(graph).value(input), old(graph).value(bias), log_scale),
        ),
{
    if !bits::is_finite(log_scale) {
        return Err(
            GgmlCpuGraphError::UnsupportedInputs {
                reason: "xasr BiasNorm log_scale must be finite",
            },
        );
    }
    let centered = graph.sub(input, bias);
    let squared = graph.sqr(centered);
    let mean_square = graph.mean_rows(squared);
    let denom = graph.sqrt(mean_square);
    let normalized = graph.div(input, denom);
    Ok(graph.scale_by_exp(normalized, log_scale))
}

/// Adds a bypass connection.
pub fn apply_bypass_graph(
    graph: &mut GgmlCpuGraphBuilder,
    original: GgmlCpuTensor,
    current: GgmlCpuTensor,
    scale: GgmlCpuTensor,
) -> (tensor: GgmlCpuTensor)
    requires
        old(graph).has(original),
        old(graph).has(current),
        old(graph).has(scale),
    ensures
        final(graph).grew_from(*old(graph)),
        final(graph).has_dense(tensor),
        final(graph).value(tensor) == layer_values::bypass(
            old(graph).value(original),
            old(graph).value(current),
            old(graph).value(scale),
        ),
{
    let delta = graph.sub(current, original);
    let scaled_delta = graph.mul(delta, scale);
    graph.add(original, scaled_delta)
}

/// Why a column slice is refused.
#[verifier::opaque]
pub open spec fn slice_refusal(frames: usize, dim: usize, start: usize, end: usize) -> Option<
    &'static str,
> {
    if start > end || end > dim {
        Some("xasr graph slice range exceeds input dimension")
    } else if start == end || frames == 0 {
        Some("xasr graph slice dimensions must be positive")
    } else if dim * ELEMENT_BYTES > usize::MAX {
        Some("xasr graph slice row stride overflows")
    } else {
        None
    }
}

/// Adds the columns `start..end` of each row.
pub fn slice_frame_rows_graph(
    graph: &mut GgmlCpuGraphBuilder,
    rows: GgmlCpuTensor,
    frames: usize,
    dim: usize,
    start: usize,
    end: usize,
) -> (result: Result<GgmlCpuTensor, GgmlCpuGraphError>)
    requires
        old(graph).has_dense(rows),
    ensures
        builds(
            result,
            *old(graph),
            *final(graph),
            slice_refusal(frames, dim, start, end),
            layer_values::columns(
                old(graph).value(rows),
                dim as int,
                frames as int,
                start as int,
                end as int,
            ),
        ),
{
    proof {
        reveal(slice_refusal);
    }
    if start > end || end > dim {
        return Err(
            GgmlCpuGraphError::UnsupportedInputs {
                reason: "xasr graph slice range exceeds input dimension",
            },
        );
    }
    let out_dim = end - start;
    if out_dim == 0 || frames == 0 {
        return Err(
            GgmlCpuGraphError::UnsupportedInputs {
                reason: "xasr graph slice dimensions must be positive",
            },
        );
    }
    let row_stride = product_or(dim, ELEMENT_BYTES, "xasr graph slice row stride overflows")?;
    let offset = product_or(start, ELEMENT_BYTES, "xasr graph slice offset overflows")?;
    let sliced = graph.view_2d(rows, out_dim, frames, row_stride, offset);
    Ok(graph.cont(sliced))
}

/// Dimensions of an upsampling.
#[derive(Clone, Copy, Debug)]
pub struct XasrUpsampleGraphShape {
    pub frames: usize,
    pub dim: usize,
    pub factor: usize,
    pub target_frames: usize,
}

/// Why an upsampling is refused.
#[verifier::opaque]
pub open spec fn upsample_refusal(shape: XasrUpsampleGraphShape) -> Option<&'static str> {
    let last = (shape.target_frames - 1) / (shape.factor as int);
    let reached = if last < shape.frames {
        last
    } else {
        shape.frames - 1
    };
    if shape.frames == 0 || shape.dim == 0 || shape.factor == 0 || shape.target_frames == 0 {
        Some("xasr upsample dimensions must be positive")
    } else if shape.dim * ELEMENT_BYTES > usize::MAX {
        Some("xasr upsample frame stride overflows")
    } else if reached * (shape.dim * ELEMENT_BYTES) > usize::MAX {
        Some("xasr upsample frame offset overflows")
    } else if last >= shape.frames {
        Some("xasr upsample target frame exceeds available source frames")
    } else {
        None
    }
}

/// Adds the repetition of each row.
pub fn apply_upsample_graph(
    graph: &mut GgmlCpuGraphBuilder,
    rows: GgmlCpuTensor,
    shape: XasrUpsampleGraphShape,
) -> (result: Result<GgmlCpuTensor, GgmlCpuGraphError>)
    requires
        old(graph).has_dense(rows),
    ensures
        builds(
            result,
            *old(graph),
            *final(graph),
            upsample_refusal(shape),
            layer_values::upsampled(
                old(graph).value(rows),
                shape.dim as int,
                shape.factor as int,
                shape.target_frames as int,
            ),
        ),
{
    proof {
        reveal(upsample_refusal);
    }
    if shape.frames == 0 || shape.dim == 0 || shape.factor == 0 || shape.target_frames == 0 {
        return Err(
            GgmlCpuGraphError::UnsupportedInputs {
                reason: "xasr upsample dimensions must be positive",
            },
        );
    }
    let frame_stride = product_or(shape.dim, ELEMENT_BYTES, "xasr upsample frame stride overflows")?;
    let mut acc: Option<GgmlCpuTensor> = None;
    let mut out_frame: usize = 0;
    while out_frame < shape.target_frames
        invariant
            out_frame <= shape.target_frames,
            shape.frames > 0,
            shape.dim > 0,
            shape.factor > 0,
            shape.target_frames > 0,
            frame_stride == shape.dim * ELEMENT_BYTES,
            old(graph).has_dense(rows),
            graph.grew_from(*old(graph)),
            acc is None <==> out_frame == 0,
            out_frame > 0 ==> {
                &&& graph.has_dense(acc->0)
                &&& graph.value(acc->0) == layer_values::upsampled(
                    old(graph).value(rows),
                    shape.dim as int,
                    shape.factor as int,
                    out_frame as int,
                )
                &&& (out_frame - 1) / (shape.factor as int) < shape.frames
                &&& ((out_frame - 1) / (shape.factor as int)) * frame_stride <= usize::MAX
            },
        decreases shape.target_frames - out_frame,
    {
        let src_frame = out_frame / shape.factor;
        proof {
            reveal(upsample_refusal);
            lemma_upsample_step(shape, out_frame as int);
        }
        if src_frame >= shape.frames {
            return Err(
                GgmlCpuGraphError::UnsupportedInputs {
                    reason: "xasr upsample target frame exceeds available source frames",
                },
            );
        }
        let offset = product_or(src_frame, frame_stride, "xasr upsample frame offset overflows")?;
        let frame = graph.view_2d(rows, shape.dim, 1, frame_stride, offset);
        let frame = graph.cont(frame);
        acc = Some(
            match acc {
                Some(current) => graph.concat(current, frame, 1),
                None => frame,
            },
        );
        out_frame = out_frame + 1;
    }
    match acc {
        Some(tensor) => Ok(tensor),
        None => Err(
            GgmlCpuGraphError::UnsupportedInputs {
                reason: "xasr upsample target frames must not be empty",
            },
        ),
    }
}

/// How one output frame bears on the refusal of an upsampling.
proof fn lemma_upsample_step(shape: XasrUpsampleGraphShape, out_frame: int)
    requires
        shape.frames > 0,
        shape.dim > 0,
        shape.factor > 0,
        0 <= out_frame < shape.target_frames,
    ensures
        0 <= out_frame / (shape.factor as int) <= (shape.target_frames - 1) / (shape.factor as int),
        out_frame > 0 ==> (out_frame - 1) / (shape.factor as int) <= out_frame / (shape.factor as int)
            <= (out_frame - 1) / (shape.factor as int) + 1,
        forall|a: int, b: int|
            #![trigger a * (shape.dim * ELEMENT_BYTES), b * (shape.dim * ELEMENT_BYTES)]
            0 <= a <= b ==> a * (shape.dim * ELEMENT_BYTES) <= b * (shape.dim * ELEMENT_BYTES),
{
    let factor = shape.factor as int;
    vstd::arithmetic::div_mod::lemma_div_is_ordered(out_frame, shape.target_frames - 1, factor);
    vstd::arithmetic::div_mod::lemma_div_is_ordered(0, out_frame, factor);
    if out_frame > 0 {
        vstd::arithmetic::div_mod::lemma_div_is_ordered(out_frame - 1, out_frame, factor);
        vstd::arithmetic::div_mod::lemma_div_is_ordered(out_frame, out_frame - 1 + factor, factor);
        vstd::arithmetic::div_mod::lemma_div_plus_one(out_frame - 1, factor);
    }
    assert forall|a: int, b: int|
        #![trigger a * (shape.dim * ELEMENT_BYTES), b * (shape.dim * ELEMENT_BYTES)]
        0 <= a <= b implies a * (shape.dim * ELEMENT_BYTES) <= b * (shape.dim * ELEMENT_BYTES) by {
        vstd::arithmetic::mul::lemma_mul_inequality(a, b, (shape.dim * ELEMENT_BYTES) as int);
    }
}

/// Why a softmax is refused.
pub open spec fn softmax_refusal(logits: Seq<u32>) -> Option<&'static str> {
    if logits.len() == 0 {
        Some("xasr softmax input must not be empty")
    } else if !layer_values::softmax_defined(logits) {
        Some("xasr softmax denominator must be finite and positive")
    } else {
        None
    }
}

/// The softmax of constant logits.
///
/// The denominator, a sum of exponentials of differences to the largest logit,
/// is finite and positive exactly if no logit is a NaN or positive infinity and
/// one of them is finite.
pub fn softmax_for_graph<O: FloatOps>(ops: &O, logits: &[u32]) -> (result: Result<
    Vec<u32>,
    GgmlCpuGraphError,
>)
    ensures
        match softmax_refusal(logits@) {
            Some(reason) => result == Err::<Vec<u32>, GgmlCpuGraphError>(refusal_error(reason)),
            None => {
                &&& result is Ok
                &&& result->Ok_0@.len() == logits@.len()
                &&& float_ops::functional(ops) ==> result->Ok_0@ == softmax_row(
                    float_ops::model(ops),
                    logits@,
                )
            },
        },
{
    if logits.len() == 0 {
        return Err(
            GgmlCpuGraphError::UnsupportedInputs { reason: "xasr softmax input must not be empty" },
        );
    }
    let mut any_finite = false;
    let mut i: usize = 0;
    while i < logits.len()
        invariant
            logits@.len() > 0,
            i <= logits.len(),
            forall|j: int| 0 <= j < i ==> !bits::nan(#[trigger] logits@[j]) && logits@[j]
                != bits::INFINITY_BITS,
            any_finite <==> exists|j: int| 0 <= j < i && bits::finite(#[trigger] logits@[j]),
        decreases logits.len() - i,
    {
        let finite = bits::is_finite(logits[i]);
        if !finite && logits[i] != bits::INFINITY_BITS + bits::SIGN_BIT {
            assert(bits::nan(logits@[i as int]) || logits@[i as int] == bits::INFINITY_BITS);
            return Err(
                GgmlCpuGraphError::UnsupportedInputs {
                    reason: "xasr softmax denominator must be finite and positive",
                },
            );
        }
        if finite {
            any_finite = true;
            assert(bits::finite(logits@[i as int]));
        }
        i = i + 1;
    }
    if !any_finite {
        return Err(
            GgmlCpuGraphError::UnsupportedInputs {
                reason: "xasr softmax denominator must be finite and positive",
            },
        );
    }
    let (exponentials, sum) = exponentials_and_sum(ops, logits);
    let mut weights: Vec<u32> = Vec::new();
    let mut i: usize = 0;
    while i < exponentials.len()
        invariant
            i <= exponentials@.len() == logits@.len(),
            weights@.len() == i,
            float_ops::functional(ops) ==> {
                let m = float_ops::model(ops);
                &&& exponentials@ == softmax::exponentials(m, logits@)
                &&& sum == softmax::normalizer(m, logits@)
                &&& forall|j: int|
                    0 <= j < i ==> #[trigger] weights@[j] == softmax_row(m, logits@)[j]
            },
        decreases exponentials@.len() - i,
    {
        weights.push(ops.div(exponentials[i], sum));
        i = i + 1;
    }
    proof {
        if float_ops::functional(ops) {
            assert(weights@ =~= softmax_row(float_ops::model(ops), logits@));
        }
    }
    Ok(weights)
}

/// Zero padding that a downsampling needs.
#[derive(Clone, Copy, Debug)]
pub struct XasrDownsampleGraphTensors {
    pub channel_pad: Option<GgmlCpuTensor>,
    pub frame_pad: Option<GgmlCpuTensor>,
}

impl XasrDownsampleGraphTensors {
    /// The tensors belong to `graph`.
    pub open spec fn within(self, graph: GgmlCpuGraphBuilder) -> bool {
        &&& self.channel_pad is Some ==> graph.has(self.channel_pad->0)
        &&& self.frame_pad is Some ==> graph.has(self.frame_pad->0)
    }
}

/// Dimensions of a downsampling.
#[derive(Clone, Copy, Debug)]
pub struct XasrDownsampleGraphShape {
    pub frames: usize,
    pub input_dim: usize,
    pub target_dim: usize,
    pub factor: usize,
}

impl XasrDownsampleGraphShape {
    pub open spec fn positive(self) -> bool {
        self.frames > 0 && self.input_dim > 0 && self.target_dim > 0 && self.factor > 0
    }

    /// Number of frames after downsampling.
    pub open spec fn out_frames(self) -> int {
        ceil_div(self.frames as int, self.factor as int)
    }

    /// Number of frames after padding, before downsampling.
    pub open spec fn padded_frames(self) -> int {
        self.out_frames() * self.factor
    }

    /// The padded rows.
    #[verifier::opaque]
    pub open spec fn padded_value(
        self,
        graph: GgmlCpuGraphBuilder,
        rows: TensorValue,
        tensors: XasrDownsampleGraphTensors,
    ) -> TensorValue {
        layer_values::frame_padded(
            layer_values::resized(
                rows,
                graph.value(tensors.channel_pad->0),
                self.frames as int,
                self.input_dim as int,
                self.target_dim as int,
            ),
            graph.value(tensors.frame_pad->0),
            self.frames as int,
            self.padded_frames(),
        )
    }

    /// The downsampled rows.
    #[verifier::opaque]
    pub open spec fn rows_value(
        self,
        graph: GgmlCpuGraphBuilder,
        rows: TensorValue,
        tensors: XasrDownsampleGraphTensors,
        weights: Seq<u32>,
    ) -> TensorValue {
        layer_values::phase_sum(
            self.padded_value(graph, rows, tensors),
            weights,
            self.target_dim as int,
            self.factor as int,
            self.out_frames(),
            self.factor as int,
        )
    }
}

impl XasrDownsampleGraphShape {
    /// The padding tensors that this shape needs are there.
    pub open spec fn padding_present(self, tensors: XasrDownsampleGraphTensors) -> bool {
        &&& self.target_dim > self.input_dim ==> tensors.channel_pad is Some
        &&& self.padded_frames() > self.frames ==> tensors.frame_pad is Some
    }

    /// What a downsampling computes does not change while the graph grows.
    pub proof fn lemma_values_in_grown(
        self,
        before: GgmlCpuGraphBuilder,
        after: GgmlCpuGraphBuilder,
        rows: TensorValue,
        tensors: XasrDownsampleGraphTensors,
        weights: Seq<u32>,
    )
        requires
            tensors.within(before),
            self.padding_present(tensors),
            after.builds_on(before),
        ensures
            tensors.within(after),
            self.padded_value(after, rows, tensors) == self.padded_value(before, rows, tensors),
            self.rows_value(after, rows, tensors, weights) == self.rows_value(
                before,
                rows,
                tensors,
                weights,
            ),
    {
        reveal(XasrDownsampleGraphShape::padded_value);
        reveal(XasrDownsampleGraphShape::rows_value);
    }
}

/// Result of a downsampling.
#[derive(Clone, Copy, Debug)]
pub struct XasrDownsampleGraphOutput {
    pub padded_rows: GgmlCpuTensor,
    pub rows: GgmlCpuTensor,
    pub frames: usize,
    pub dim: usize,
}

/// Why a downsampling is refused.
#[verifier::opaque]
pub open spec fn downsample_refusal(
    logits: Seq<u32>,
    tensors: XasrDownsampleGraphTensors,
    shape: XasrDownsampleGraphShape,
) -> Option<&'static str> {
    if !shape.positive() {
        Some("xasr downsample dimensions must be positive")
    } else if logits.len() != shape.factor {
        Some("xasr downsample weights length must match factor")
    } else if shape.padded_frames() > usize::MAX {
        Some("xasr downsample padded frame count overflows")
    } else if shape.target_dim > shape.input_dim && tensors.channel_pad is None {
        Some("xasr downsample channel pad tensor is required")
    } else if shape.target_dim < shape.input_dim && shape.input_dim * ELEMENT_BYTES > usize::MAX {
        Some("xasr downsample resize row stride overflows")
    } else if shape.padded_frames() > shape.frames && tensors.frame_pad is None {
        Some("xasr downsample frame pad tensor is required")
    } else if softmax_refusal(logits) is Some {
        softmax_refusal(logits)
    } else if shape.target_dim * ELEMENT_BYTES > usize::MAX {
        Some("xasr downsample frame stride overflows")
    } else if (shape.target_dim * ELEMENT_BYTES) * shape.factor > usize::MAX {
        Some("xasr downsample grouped frame stride overflows")
    } else {
        None
    }
}

/// Adds a downsampling: each group of `factor` rows becomes their sum weighted
/// by the softmax of the logits.  The weights come with it.
pub fn apply_downsample_graph<O: FloatOps>(
    ops: &O,
    graph: &mut GgmlCpuGraphBuilder,
    rows: GgmlCpuTensor,
    weights_logits: &[u32],
    tensors: XasrDownsampleGraphTensors,
    shape: XasrDownsampleGraphShape,
) -> (result: Result<(XasrDownsampleGraphOutput, Vec<u32>), GgmlCpuGraphError>)
    requires
        old(graph).has_dense(rows),
        tensors.within(*old(graph)),
    ensures
        final(graph).grew_from(*old(graph)),
        match downsample_refusal(weights_logits@, tensors, shape) {
            Some(reason) => result == Err::<
                (XasrDownsampleGraphOutput, Vec<u32>),
                GgmlCpuGraphError,
            >(refusal_error(reason)),
            None => {
                let (output, weights) = result->Ok_0;
                &&& result is Ok
                &&& final(graph).has_dense(output.padded_rows)
                &&& final(graph).has_dense(output.rows)
                &&& final(graph).value(output.padded_rows) == shape.padded_value(
                    *old(graph),
                    old(graph).value(rows),
                    tensors,
                )
                &&& final(graph).value(output.rows) == shape.rows_value(
                    *old(graph),
                    old(graph).value(rows),
                    tensors,
                    weights@,
                )
                &&& float_ops::functional(ops) ==> weights@ == softmax_row(
                    float_ops::model(ops),
                    weights_logits@,
                )
                &&& output.frames == shape.out_frames()
                &&& output.dim == shape.target_dim
            },
        },
{
    proof {
        reveal(downsample_refusal);
        reveal(XasrDownsampleGraphShape::padded_value);
        reveal(XasrDownsampleGraphShape::rows_value);
    }
    if shape.frames == 0 || shape.input_dim == 0 || shape.target_dim == 0 || shape.factor == 0 {
        return Err(
            GgmlCpuGraphError::UnsupportedInputs {
                reason: "xasr downsample dimensions must be positive",
            },
        );
    }
    if weights_logits.len() != shape.factor {
        return Err(
            GgmlCpuGraphError::UnsupportedInputs {
                reason: "xasr downsample weights length must match factor",
            },
        );
    }
    let out_frames = div_ceil(shape.frames, shape.factor);
    let padded_frames = product_or(
        out_frames,
        shape.factor,
        "xasr downsample padded frame count overflows",
    )?;
    let resized = if shape.target_dim > shape.input_dim {
        match tensors.channel_pad {
            Some(pad) => graph.concat(rows, pad, 0),
            None => {
                return Err(
                    GgmlCpuGraphError::UnsupportedInputs {
                        reason: "xasr downsample channel pad tensor is required",
                    },
                );
            },
        }
    } else if shape.target_dim < shape.input_dim {
        let row_stride = product_or(
            shape.input_dim,
            ELEMENT_BYTES,
            "xasr downsample resize row stride overflows",
        )?;
        let sliced = graph.view_2d(rows, shape.target_dim, shape.frames, row_stride, 0);
        graph.cont(sliced)
    } else {
        rows
    };
    let padded_rows = if padded_frames > shape.frames {
        match tensors.frame_pad {
            Some(pad) => graph.concat(resized, pad, 1),
            None => {
                return Err(
                    GgmlCpuGraphError::UnsupportedInputs {
                        reason: "xasr downsample frame pad tensor is required",
                    },
                );
            },
        }
    } else {
        graph.cont(resized)
    };
    let ghost padded_value = shape.padded_value(*old(graph), old(graph).value(rows), tensors);
    assert(graph.value(padded_rows) == padded_value);
    let weights = softmax_for_graph(ops, weights_logits)?;
    let frame_stride = product_or(
        shape.target_dim,
        ELEMENT_BYTES,
        "xasr downsample frame stride overflows",
    )?;
    let grouped_frame_stride = product_or(
        frame_stride,
        shape.factor,
        "xasr downsample grouped frame stride overflows",
    )?;
    let mut acc: Option<GgmlCpuTensor> = None;
    let mut factor_index: usize = 0;
    while factor_index < weights.len()
        invariant
            factor_index <= weights@.len() == shape.factor,
            shape.factor > 0,
            out_frames == shape.out_frames(),
            frame_stride == shape.target_dim * ELEMENT_BYTES,
            grouped_frame_stride == frame_stride * shape.factor,
            downsample_refusal(weights_logits@, tensors, shape) is None,
            graph.grew_from(*old(graph)),
            graph.has_dense(padded_rows),
            graph.value(padded_rows) == padded_value,
            acc is None <==> factor_index == 0,
            factor_index > 0 ==> {
                &&& graph.has_dense(acc->0)
                &&& graph.value(acc->0) == layer_values::phase_sum(
                    padded_value,
                    weights@,
                    shape.target_dim as int,
                    shape.factor as int,
                    shape.out_frames(),
                    factor_index as int,
                )
            },
        decreases weights.len() - factor_index,
    {
        assert(factor_index * frame_stride <= frame_stride * shape.factor) by (nonlinear_arith)
            requires
                factor_index <= shape.factor,
        ;
        let offset = product_or(
            factor_index,
            frame_stride,
            "xasr downsample factor offset overflows",
        )?;
        let selected = graph.view_2d(
            padded_rows,
            shape.target_dim,
            out_frames,
            grouped_frame_stride,
            offset,
        );
        let selected = graph.cont(selected);
        let weighted = graph.scale(selected, weights[factor_index]);
        acc = Some(
            match acc {
                Some(current) => graph.add(current, weighted),
                None => weighted,
            },
        );
        factor_index = factor_index + 1;
    }
    match acc {
        Some(sum) => Ok(
            (
                XasrDownsampleGraphOutput {
                    padded_rows,
                    rows: sum,
                    frames: out_frames,
                    dim: shape.target_dim,
                },
                weights,
            ),
        ),
        None => Err(
            GgmlCpuGraphError::UnsupportedInputs {
                reason: "xasr downsample weights must not be empty",
            },
        ),
    }
}

/// Strides and paddings of a convolution without dilation.
#[derive(Clone, Copy, Debug)]
pub struct XasrConv2dGraphParams {
    pub stride_w: usize,
    pub stride_h: usize,
    pub pad_w: usize,
    pub pad_h: usize,
}

impl XasrConv2dGraphParams {
    pub open spec fn undilated(self) -> ConvParams {
        ConvParams {
            stride_w: self.stride_w,
            stride_h: self.stride_h,
            pad_w: self.pad_w,
            pad_h: self.pad_h,
            dilation_w: 1,
            dilation_h: 1,
        }
    }

    fn conv_params(&self) -> (params: ConvParams)
        ensures
            params == self.undilated(),
    {
        ConvParams {
            stride_w: self.stride_w,
            stride_h: self.stride_h,
            pad_w: self.pad_w,
            pad_h: self.pad_h,
            dilation_w: 1,
            dilation_h: 1,
        }
    }
}

/// Adds a convolution with bias.
pub fn apply_conv2d_with_bias_graph(
    graph: &mut GgmlCpuGraphBuilder,
    kernel: GgmlCpuTensor,
    input: GgmlCpuTensor,
    bias: GgmlCpuTensor,
    out_channels: usize,
    params: XasrConv2dGraphParams,
) -> (tensor: GgmlCpuTensor)
    requires
        old(graph).has(kernel),
        old(graph).has(input),
        old(graph).has_dense(bias),
    ensures
        final(graph).grew_from(*old(graph)),
        final(graph).has_dense(tensor),
        final(graph).value(tensor) == layer_values::conv_with_bias(
            old(graph).value(kernel),
            old(graph).value(input),
            old(graph).value(bias),
            out_channels as int,
            params.undilated(),
        ),
{
    let output = graph.conv_2d(kernel, input, params.conv_params());
    let bias = graph.reshape_4d(bias, 1, 1, out_channels, 1);
    graph.add(output, bias)
}

/// Adds a convolution that keeps channels apart, with bias.
pub fn apply_depthwise_conv2d_with_bias_graph(
    graph: &mut GgmlCpuGraphBuilder,
    kernel: GgmlCpuTensor,
    input: GgmlCpuTensor,
    bias: GgmlCpuTensor,
    channels: usize,
    params: XasrConv2dGraphParams,
) -> (tensor: GgmlCpuTensor)
    requires
        old(graph).has(kernel),
        old(graph).has(input),
        old(graph).has_dense(bias),
    ensures
        final(graph).grew_from(*old(graph)),
        final(graph).has_dense(tensor),
        final(graph).value(tensor) == layer_values::depthwise_with_bias(
            old(graph).value(kernel),
            old(graph).value(input),
            old(graph).value(bias),
            channels as int,
            params.undilated(),
        ),
{
    let output = graph.depthwise_conv_2d(kernel, input, params.conv_params());
    let bias = graph.reshape_4d(bias, 1, 1, channels, 1);
    graph.add(output, bias)
}

/// Weights of a feed-forward block.
#[derive(Clone, Copy, Debug)]
pub struct XasrFeedForwardGraphTensors {
    pub in_proj_weight: GgmlCpuTensor,
    pub in_proj_bias: GgmlCpuTensor,
    pub out_proj_weight: GgmlCpuTensor,
    pub out_proj_bias: GgmlCpuTensor,
    pub swoosh_l_offset: GgmlCpuTensor,
    pub swoosh_l_shift: GgmlCpuTensor,
}

impl XasrFeedForwardGraphTensors {
    /// The tensors belong to `graph`.
    pub open spec fn within(self, graph: GgmlCpuGraphBuilder) -> bool {
        &&& graph.has_dense(self.in_proj_weight)
        &&& graph.has_dense(self.in_proj_bias)
        &&& graph.has_dense(self.out_proj_weight)
        &&& graph.has_dense(self.out_proj_bias)
        &&& graph.has_dense(self.swoosh_l_offset)
        &&& graph.has_dense(self.swoosh_l_shift)
    }

    /// The block applied to `x`.
    #[verifier::opaque]
    pub open spec fn applied(self, graph: GgmlCpuGraphBuilder, x: TensorValue) -> TensorValue {
        layer_values::linear(
            graph.value(self.out_proj_weight),
            layer_values::swoosh(
                layer_values::linear(
                    graph.value(self.in_proj_weight),
                    x,
                    graph.value(self.in_proj_bias),
                ),
                graph.value(self.swoosh_l_offset),
                graph.value(self.swoosh_l_shift),
            ),
            graph.value(self.out_proj_bias),
        )
    }

    /// What the block computes does not change while the graph grows.
    pub proof fn lemma_applied_in_grown(
        self,
        before: GgmlCpuGraphBuilder,
        after: GgmlCpuGraphBuilder,
        x: TensorValue,
    )
        requires
            self.within(before),
            after.builds_on(before),
        ensures
            self.within(after),
            self.applied(after, x) == self.applied(before, x),
    {
        reveal(XasrFeedForwardGraphTensors::applied);
    }
}

/// Adds a feed-forward block.
pub fn apply_feed_forward_graph(
    graph: &mut GgmlCpuGraphBuilder,
    input: GgmlCpuTensor,
    weights: XasrFeedForwardGraphTensors,
) -> (tensor: GgmlCpuTensor)
    requires
        old(graph).has(input),
        weights.within(*old(graph)),
    ensures
        final(graph).grew_from(*old(graph)),
        final(graph).has_dense(tensor),
        final(graph).value(tensor) == weights.applied(*old(graph), old(graph).value(input)),
{
    proof {
        reveal(XasrFeedForwardGraphTensors::applied);
    }
    let hidden = apply_linear_graph(graph, weights.in_proj_weight, input, weights.in_proj_bias);
    let hidden = apply_swoosh_l_graph(
        graph,
        hidden,
        weights.swoosh_l_offset,
        weights.swoosh_l_shift,
    );
    apply_linear_graph(graph, weights.out_proj_weight, hidden, weights.out_proj_bias)
}

/// Why a gated projection is refused.
pub open spec fn glu_refusal(dim: usize, frames: usize) -> Option<&'static str> {
    if dim == 0 || frames == 0 {
        Some("xasr convolution GLU dim and frames must be positive")
    } else if (dim * 2) * ELEMENT_BYTES > usize::MAX {
        Some("xasr convolution GLU row stride overflows")
    } else {
        None
    }
}

/// Adds the gated input projection of a convolution module.
pub fn apply_conv_in_proj_glu_graph(
    graph: &mut GgmlCpuGraphBuilder,
    input: GgmlCpuTensor,
    in_proj_weight: GgmlCpuTensor,
    in_proj_bias: GgmlCpuTensor,
    dim: usize,
    frames: usize,
) -> (result: Result<GgmlCpuTensor, GgmlCpuGraphError>)
    requires
        old(graph).has(input),
        old(graph).has(in_proj_weight),
        old(graph).has(in_proj_bias),
    ensures
        builds(
            result,
            *old(graph),
            *final(graph),
            glu_refusal(dim, frames),
            layer_values::gated_projection(
                old(graph).value(input),
                old(graph).value(in_proj_weight),
                old(graph).value(in_proj_bias),
                dim as int,
                frames as int,
            ),
        ),
{
    if dim == 0 || frames == 0 {
        return Err(
            GgmlCpuGraphError::UnsupportedInputs {
                reason: "xasr convolution GLU dim and frames must be positive",
            },
        );
    }
    let projected = apply_linear_graph(graph, in_proj_weight, input, in_proj_bias);
    let doubled = product_or(dim, 2, "xasr convolution GLU row stride overflows")?;
    let row_stride_bytes = product_or(
        doubled,
        ELEMENT_BYTES,
        "xasr convolution GLU row stride overflows",
    )?;
    let gate_offset_bytes = product_or(
        dim,
        ELEMENT_BYTES,
        "xasr convolution GLU gate offset overflows",
    )?;
    let main = graph.view_2d(projected, dim, frames, row_stride_bytes, 0);
    let main = graph.cont(main);
    let gate = graph.view_2d(projected, dim, frames, row_stride_bytes, gate_offset_bytes);
    let gate = graph.cont(gate);
    let gate = graph.sigmoid(gate);
    Ok(graph.mul(main, gate))
}

/// Why a one-dimensional convolution is refused.
pub open spec fn depthwise_1d_refusal(
    channels: usize,
    input_len: usize,
    kernel_len: usize,
) -> Option<
    &'static str,
> {
    if channels == 0 || input_len == 0 || kernel_len == 0 {
        Some("xasr depthwise conv dimensions must be positive")
    } else {
        None
    }
}

/// Step one along a row with this padding on both sides.
pub open spec fn row_conv(padding: usize) -> ConvParams {
    ConvParams {
        stride_w: 1,
        stride_h: 1,
        pad_w: padding,
        pad_h: 0,
        dilation_w: 1,
        dilation_h: 1,
    }
}

/// Adds a one-dimensional convolution of each channel, channels major.
pub fn apply_depthwise_conv1d_channel_major_graph(
    graph: &mut GgmlCpuGraphBuilder,
    input: GgmlCpuTensor,
    kernel: GgmlCpuTensor,
    bias: GgmlCpuTensor,
    channels: usize,
    input_len: usize,
    kernel_len: usize,
    padding: usize,
) -> (result: Result<GgmlCpuTensor, GgmlCpuGraphError>)
    requires
        old(graph).has_dense(input),
        old(graph).has_dense(kernel),
        old(graph).has_dense(bias),
    ensures
        builds(
            result,
            *old(graph),
            *final(graph),
            depthwise_1d_refusal(channels, input_len, kernel_len),
            layer_values::depthwise_1d(
                old(graph).value(input),
                old(graph).value(kernel),
                old(graph).value(bias),
                channels as int,
                input_len as int,
                kernel_len as int,
                row_conv(padding),
            ),
        ),
{
    if channels == 0 || input_len == 0 || kernel_len == 0 {
        return Err(
            GgmlCpuGraphError::UnsupportedInputs {
                reason: "xasr depthwise conv dimensions must be positive",
            },
        );
    }
    let input = graph.reshape_4d(input, input_len, 1, channels, 1);
    let kernel = graph.reshape_4d(kernel, kernel_len, 1, 1, channels);
    let params = XasrConv2dGraphParams { stride_w: 1, stride_h: 1, pad_w: padding, pad_h: 0 };
    let output = graph.depthwise_conv_2d(kernel, input, params.conv_params());
    let bias = graph.reshape_4d(bias, 1, 1, channels, 1);
    Ok(graph.add(output, bias))
}

/// Operands of the two convolutions of a convolution module.
#[derive(Clone, Copy, Debug)]
pub struct XasrDepthwiseMixGraphTensors {
    pub cached_input: GgmlCpuTensor,
    pub chunk_input: GgmlCpuTensor,
    pub causal_kernel: GgmlCpuTensor,
    pub causal_bias: GgmlCpuTensor,
    pub chunk_kernel: GgmlCpuTensor,
    pub chunk_bias: GgmlCpuTensor,
    pub chunk_scale: GgmlCpuTensor,
}

impl XasrDepthwiseMixGraphTensors {
    /// The tensors belong to `graph`.
    pub open spec fn within(self, graph: GgmlCpuGraphBuilder) -> bool {
        &&& graph.has_dense(self.cached_input)
        &&& graph.has_dense(self.chunk_input)
        &&& graph.has_dense(self.causal_kernel)
        &&& graph.has_dense(self.causal_bias)
        &&& graph.has_dense(self.chunk_kernel)
        &&& graph.has_dense(self.chunk_bias)
        &&& graph.has_dense(self.chunk_scale)
    }

    /// The causal convolution plus the scaled convolution within the chunk.
    pub open spec fn applied(
        self,
        graph: GgmlCpuGraphBuilder,
        shape: XasrDepthwiseMixShape,
    ) -> TensorValue {
        layer_values::depthwise_1d(
            graph.value(self.cached_input),
            graph.value(self.causal_kernel),
            graph.value(self.causal_bias),
            shape.channels as int,
            shape.cached_len as int,
            shape.causal_kernel_len as int,
            row_conv(0),
        ).plus(
            layer_values::depthwise_1d(
                graph.value(self.chunk_input),
                graph.value(self.chunk_kernel),
                graph.value(self.chunk_bias),
                shape.channels as int,
                shape.frames as int,
                shape.chunk_kernel_len as int,
                row_conv((shape.chunk_kernel_len / 2) as usize),
            ).times(
                graph.value(self.chunk_scale).reshaped(
                    shape.frames as int,
                    1,
                    shape.channels as int,
                    1,
                ),
            ),
        )
    }
}

/// Dimensions of the two convolutions of a convolution module.
#[derive(Clone, Copy, Debug)]
pub struct XasrDepthwiseMixShape {
    pub channels: usize,
    pub frames: usize,
    pub cached_len: usize,
    pub causal_kernel_len: usize,
    pub chunk_kernel_len: usize,
}

/// Why the two convolutions are refused.
pub open spec fn depthwise_mix_refusal(shape: XasrDepthwiseMixShape) -> Option<&'static str> {
    let causal = depthwise_1d_refusal(shape.channels, shape.cached_len, shape.causal_kernel_len);
    if causal is Some {
        causal
    } else {
        depthwise_1d_refusal(shape.channels, shape.frames, shape.chunk_kernel_len)
    }
}

/// Adds the two convolutions of a convolution module, channels major.
pub fn apply_depthwise_mix_channel_major_graph(
    graph: &mut GgmlCpuGraphBuilder,
    tensors: XasrDepthwiseMixGraphTensors,
    shape: XasrDepthwiseMixShape,
) -> (result: Result<GgmlCpuTensor, GgmlCpuGraphError>)
    requires
        tensors.within(*old(graph)),
    ensures
        builds(
            result,
            *old(graph),
            *final(graph),
            depthwise_mix_refusal(shape),
            tensors.applied(*old(graph), shape),
        ),
{
    let causal = apply_depthwise_conv1d_channel_major_graph(
        graph,
        tensors.cached_input,
        tensors.causal_kernel,
        tensors.causal_bias,
        shape.channels,
        shape.cached_len,
        shape.causal_kernel_len,
        0,
    )?;
    let chunk = apply_depthwise_conv1d_channel_major_graph(
        graph,
        tensors.chunk_input,
        tensors.chunk_kernel,
        tensors.chunk_bias,
        shape.channels,
        shape.frames,
        shape.chunk_kernel_len,
        shape.chunk_kernel_len / 2,
    )?;
    let scale = graph.reshape_4d(tensors.chunk_scale, shape.frames, 1, shape.channels, 1);
    let scaled_chunk = graph.mul(chunk, scale);
    Ok(graph.add(causal, scaled_chunk))
}

/// Operands of a convolution module.
#[derive(Clone, Copy, Debug)]
pub struct XasrConvolutionModuleGraphTensors {
    pub cache: GgmlCpuTensor,
    pub in_proj_weight: GgmlCpuTensor,
    pub in_proj_bias: GgmlCpuTensor,
    pub causal_kernel: GgmlCpuTensor,
    pub causal_bias: GgmlCpuTensor,
    pub chunk_kernel: GgmlCpuTensor,
    pub chunk_bias: GgmlCpuTensor,
    pub chunk_scale: GgmlCpuTensor,
    pub out_proj_weight: GgmlCpuTensor,
    pub out_proj_bias: GgmlCpuTensor,
    pub swoosh_r_offset: GgmlCpuTensor,
    pub swoosh_r_shift: GgmlCpuTensor,
}

/// Dimensions of a convolution module.
#[derive(Clone, Copy, Debug)]
pub struct XasrConvolutionModuleGraphShape {
    pub dim: usize,
    pub frames: usize,
    pub cache_len: usize,
    pub causal_kernel_len: usize,
    pub chunk_kernel_len: usize,
}

/// Result of a convolution module.
#[derive(Clone, Copy, Debug)]
pub struct XasrConvolutionModuleGraphOutput {
    pub rows: GgmlCpuTensor,
    pub new_cache: GgmlCpuTensor,
}

impl XasrConvolutionModuleGraphTensors {
    /// The tensors belong to `graph`.
    pub open spec fn within(self, graph: GgmlCpuGraphBuilder) -> bool {
        &&& graph.has_dense(self.cache)
        &&& graph.has_dense(self.in_proj_weight)
        &&& graph.has_dense(self.in_proj_bias)
        &&& graph.has_dense(self.causal_kernel)
        &&& graph.has_dense(self.causal_bias)
        &&& graph.has_dense(self.chunk_kernel)
        &&& graph.has_dense(self.chunk_bias)
        &&& graph.has_dense(self.chunk_scale)
        &&& graph.has_dense(self.out_proj_weight)
        &&& graph.has_dense(self.out_proj_bias)
        &&& graph.has_dense(self.swoosh_r_offset)
        &&& graph.has_dense(self.swoosh_r_shift)
    }

    /// The gated projection, channels major.
    pub open spec fn channel_major(
        self,
        graph: GgmlCpuGraphBuilder,
        x: TensorValue,
        shape: XasrConvolutionModuleGraphShape,
    ) -> TensorValue {
        layer_values::gated_projection(
            x,
            graph.value(self.in_proj_weight),
            graph.value(self.in_proj_bias),
            shape.dim as int,
            shape.frames as int,
        ).transposed().cont()
    }

    /// The cached past of each channel followed by its present.
    pub open spec fn cached_input(
        self,
        graph: GgmlCpuGraphBuilder,
        x: TensorValue,
        shape: XasrConvolutionModuleGraphShape,
    ) -> TensorValue {
        graph.value(self.cache).concat(self.channel_major(graph, x, shape), 0)
    }

    /// The last `cache_len` elements of each channel.
    #[verifier::opaque]
    pub open spec fn next_cache(
        self,
        graph: GgmlCpuGraphBuilder,
        x: TensorValue,
        shape: XasrConvolutionModuleGraphShape,
    ) -> TensorValue {
        self.cached_input(graph, x, shape).window(
            shape.cache_len as int,
            shape.dim as int,
            (shape.cache_len + shape.frames) * ELEMENT_BYTES,
            shape.frames * ELEMENT_BYTES,
        )
    }

    /// The causal and chunkwise convolutions of the gated projection.
    pub open spec fn mixed(
        self,
        graph: GgmlCpuGraphBuilder,
        x: TensorValue,
        shape: XasrConvolutionModuleGraphShape,
    ) -> TensorValue {
        layer_values::depthwise_1d(
            self.cached_input(graph, x, shape),
            graph.value(self.causal_kernel),
            graph.value(self.causal_bias),
            shape.dim as int,
            shape.cache_len + shape.frames,
            shape.causal_kernel_len as int,
            row_conv(0),
        ).plus(
            layer_values::depthwise_1d(
                self.channel_major(graph, x, shape),
                graph.value(self.chunk_kernel),
                graph.value(self.chunk_bias),
                shape.dim as int,
                shape.frames as int,
                shape.chunk_kernel_len as int,
                row_conv((shape.chunk_kernel_len / 2) as usize),
            ).times(
                graph.value(self.chunk_scale).reshaped(
                    shape.frames as int,
                    1,
                    shape.dim as int,
                    1,
                ),
            ),
        )
    }

    /// The module applied to `x`.
    #[verifier::opaque]
    pub open spec fn applied(
        self,
        graph: GgmlCpuGraphBuilder,
        x: TensorValue,
        shape: XasrConvolutionModuleGraphShape,
    ) -> TensorValue {
        layer_values::linear(
            graph.value(self.out_proj_weight),
            layer_values::swoosh(
                self.mixed(graph, x, shape).cont().reshaped(
                    shape.frames as int,
                    shape.dim as int,
                    1,
                    1,
                ).transposed().cont(),
                graph.value(self.swoosh_r_offset),
                graph.value(self.swoosh_r_shift),
            ),
            graph.value(self.out_proj_bias),
        )
    }

    /// What the module computes does not change while the graph grows.
    pub proof fn lemma_applied_in_grown(
        self,
        before: GgmlCpuGraphBuilder,
        after: GgmlCpuGraphBuilder,
        x: TensorValue,
        shape: XasrConvolutionModuleGraphShape,
    )
        requires
            self.within(before),
            after.builds_on(before),
        ensures
            self.within(after),
            self.applied(after, x, shape) == self.applied(before, x, shape),
            self.next_cache(after, x, shape) == self.next_cache(before, x, shape),
    {
        reveal(XasrConvolutionModuleGraphTensors::applied);
        reveal(XasrConvolutionModuleGraphTensors::next_cache);
    }
}

/// Why a convolution module is refused.
#[verifier::opaque]
pub open spec fn convolution_module_refusal(shape: XasrConvolutionModuleGraphShape) -> Option<
    &'static str,
> {
    if shape.dim == 0 || shape.frames == 0 || shape.cache_len == 0 {
        Some("xasr convolution module dimensions must be positive")
    } else if shape.cache_len + 1 != shape.causal_kernel_len {
        Some("xasr convolution module cache_len must equal causal_kernel_len - 1")
    } else if shape.cache_len != shape.chunk_kernel_len / 2 {
        Some("xasr convolution module cache_len must equal chunk_kernel_len / 2")
    } else if glu_refusal(shape.dim, shape.frames) is Some {
        glu_refusal(shape.dim, shape.frames)
    } else if shape.cache_len + shape.frames > usize::MAX {
        Some("xasr convolution module cached length overflows")
    } else if (shape.cache_len + shape.frames) * ELEMENT_BYTES > usize::MAX {
        Some("xasr convolution module cache row stride overflows")
    } else {
        None
    }
}

/// Adds a convolution module.
pub fn apply_convolution_module_graph(
    graph: &mut GgmlCpuGraphBuilder,
    input: GgmlCpuTensor,
    tensors: XasrConvolutionModuleGraphTensors,
    shape: XasrConvolutionModuleGraphShape,
) -> (result: Result<XasrConvolutionModuleGraphOutput, GgmlCpuGraphError>)
    requires
        old(graph).has(input),
        tensors.within(*old(graph)),
    ensures
        final(graph).grew_from(*old(graph)),
        match convolution_module_refusal(shape) {
            Some(reason) => result == Err::<XasrConvolutionModuleGraphOutput, GgmlCpuGraphError>(
                refusal_error(reason),
            ),
            None => {
                &&& result is Ok
                &&& final(graph).has_dense(result->Ok_0.rows)
                &&& final(graph).has_dense(result->Ok_0.new_cache)
                &&& final(graph).value(result->Ok_0.rows) == tensors.applied(
                    *old(graph),
                    old(graph).value(input),
                    shape,
                )
                &&& final(graph).value(result->Ok_0.new_cache) == tensors.next_cache(
                    *old(graph),
                    old(graph).value(input),
                    shape,
                )
            },
        },
{
    proof {
        reveal(convolution_module_refusal);
    }
    if shape.dim == 0 || shape.frames == 0 || shape.cache_len == 0 {
        return Err(
            GgmlCpuGraphError::UnsupportedInputs {
                reason: "xasr convolution module dimensions must be positive",
            },
        );
    }
    if shape.causal_kernel_len == 0 || shape.cache_len != shape.causal_kernel_len - 1 {
        return Err(
            GgmlCpuGraphError::UnsupportedInputs {
                reason: "xasr convolution module cache_len must equal causal_kernel_len - 1",
            },
        );
    }
    if shape.cache_len != shape.chunk_kernel_len / 2 {
        return Err(
            GgmlCpuGraphError::UnsupportedInputs {
                reason: "xasr convolution module cache_len must equal chunk_kernel_len / 2",
            },
        );
    }
    proof {
        reveal(XasrConvolutionModuleGraphTensors::applied);
        reveal(XasrConvolutionModuleGraphTensors::next_cache);
    }
    let gated = apply_conv_in_proj_glu_graph(
        graph,
        input,
        tensors.in_proj_weight,
        tensors.in_proj_bias,
        shape.dim,
        shape.frames,
    )?;
    let channel_major = graph.transpose(gated);
    let channel_major = graph.cont(channel_major);
    let cached_input = graph.concat(tensors.cache, channel_major, 0);
    let cached_len = sum_or(
        shape.cache_len,
        shape.frames,
        "xasr convolution module cached length overflows",
    )?;
    let row_stride_bytes = product_or(
        cached_len,
        ELEMENT_BYTES,
        "xasr convolution module cache row stride overflows",
    )?;
    let new_cache_offset_bytes = product_or(
        shape.frames,
        ELEMENT_BYTES,
        "xasr convolution module cache offset overflows",
    )?;
    let new_cache = graph.view_2d(
        cached_input,
        shape.cache_len,
        shape.dim,
        row_stride_bytes,
        new_cache_offset_bytes,
    );
    let new_cache = graph.cont(new_cache);
    let depthwise = apply_depthwise_mix_channel_major_graph(
        graph,
        XasrDepthwiseMixGraphTensors {
            cached_input,
            chunk_input: channel_major,
            causal_kernel: tensors.causal_kernel,
            causal_bias: tensors.causal_bias,
            chunk_kernel: tensors.chunk_kernel,
            chunk_bias: tensors.chunk_bias,
            chunk_scale: tensors.chunk_scale,
        },
        XasrDepthwiseMixShape {
            channels: shape.dim,
            frames: shape.frames,
            cached_len,
            causal_kernel_len: shape.causal_kernel_len,
            chunk_kernel_len: shape.chunk_kernel_len,
        },
    )?;
    let depthwise = graph.cont(depthwise);
    let depthwise = graph.reshape_2d(depthwise, shape.frames, shape.dim);
    let frame_major = graph.transpose(depthwise);
    let frame_major = graph.cont(frame_major);
    let activated = apply_swoosh_r_graph(
        graph,
        frame_major,
        tensors.swoosh_r_offset,
        tensors.swoosh_r_shift,
    );
    let rows = apply_linear_graph(
        graph,
        tensors.out_proj_weight,
        activated,
        tensors.out_proj_bias,
    );
    Ok(XasrConvolutionModuleGraphOutput { rows, new_cache })
}

} // verus!
