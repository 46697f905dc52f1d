//! Normalised exponentials.

use vstd::prelude::*;
use vstd::string::StringExecFns;
use crate::bits;
use crate::bits::{INFINITY_BITS, ONE_BITS, SIGN_BIT, ZERO_BITS};
use crate::decoder::text_outcome;
use crate::float_ops;
use crate::float_ops::{FloatModel, FloatOps};
use crate::rows;
use crate::rows::{joined, part_of};
use crate::text;
use crate::text::decimal;

verus! {

/// The pattern of negative infinity.
pub const NEGATIVE_INFINITY_BITS: u32 = 0xff80_0000;

/// The largest of the first `n` values.
pub open spec fn largest_of(m: FloatModel, values: Seq<u32>, n: int) -> u32
    decreases n,
{
    if n <= 0 {
        NEGATIVE_INFINITY_BITS
    } else {
        (m.max)(largest_of(m, values, n - 1), values[n - 1])
    }
}

/// The sum of the first `n` values.
pub open spec fn sum_of(m: FloatModel, values: Seq<u32>, n: int) -> u32
    decreases n,
{
    if n <= 0 {
        ZERO_BITS
    } else {
        (m.add)(sum_of(m, values, n - 1), values[n - 1])
    }
}

/// The exponentials of the distances to the largest value.
pub open spec fn exponentials(m: FloatModel, values: Seq<u32>) -> Seq<u32> {
    Seq::new(
        values.len(),
        |i: int|
            (m.exp)((m.sub)(values[i], largest_of(m, values, values.len() as int))),
    )
}

/// The sum of the exponentials.
pub open spec fn normalizer(m: FloatModel, values: Seq<u32>) -> u32 {
    sum_of(m, exponentials(m, values), values.len() as int)
}

/// Zero of either sign.
pub open spec fn is_zero(value: u32) -> bool {
    value == ZERO_BITS || value == SIGN_BIT
}

/// The exponentials cannot be normalised.
pub open spec fn degenerate(m: FloatModel, values: Seq<u32>) -> bool {
    is_zero(normalizer(m, values)) || !bits::finite(normalizer(m, values))
}

/// The normalised exponentials.
pub open spec fn softmax_row(m: FloatModel, values: Seq<u32>) -> Seq<u32> {
    Seq::new(
        values.len(),
        |i: int| (m.div)(exponentials(m, values)[i], normalizer(m, values)),
    )
}

/// The largest of values.
pub fn largest<O: FloatOps>(ops: &O, values: &[u32]) -> (max: u32)
    ensures
        float_ops::functional(ops) ==> max == largest_of(
            float_ops::model(ops),
            values@,
            values@.len() as int,
        ),
{
    let mut max = NEGATIVE_INFINITY_BITS;
    let mut i: usize = 0;
    while i < values.len()
        invariant
            i <= values@.len(),
            float_ops::functional(ops) ==> max == largest_of(
                float_ops::model(ops),
                values@,
                i as int,
            ),
        decreases values@.len() - i,
    {
        max = ops.max(max, values[i]);
        i = i + 1;
    }
    max
}

/// The exponentials of the distances to the largest value, and their sum.
pub fn exponentials_and_sum<O: FloatOps>(ops: &O, values: &[u32]) -> (result: (Vec<u32>, u32))
    ensures
        result.0@.len() == values@.len(),
        float_ops::functional(ops) ==> {
            &&& result.0@ == exponentials(float_ops::model(ops), values@)
            &&& result.1 == normalizer(float_ops::model(ops), values@)
        },
{
    let ghost m = float_ops::model(ops);
    let max = largest(ops, values);
    let mut shifted: Vec<u32> = Vec::new();
    let mut sum = ZERO_BITS;
    let mut i: usize = 0;
    while i < values.len()
        invariant
            i <= values@.len(),
            m == float_ops::model(ops),
            shifted@.len() == i,
            float_ops::functional(ops) ==> {
                &&& max == largest_of(m, values@, values@.len() as int)
                &&& forall|j: int|
                    0 <= j < i ==> #[trigger] shifted@[j] == exponentials(m, values@)[j]
                &&& sum == sum_of(m, exponentials(m, values@), i as int)
            },
        decreases values@.len() - i,
    {
        let distance = ops.sub(values[i], max);
        let value = ops.exp(distance);
        shifted.push(value);
        sum = ops.add(sum, value);
        i = i + 1;
    }
    proof {
        if float_ops::functional(ops) {
            assert(shifted@ =~= exponentials(m, values@));
        }
    }
    (shifted, sum)
}

/// Whether exponentials with this sum cannot be normalised.
pub fn is_degenerate(sum: u32) -> (result: bool)
    ensures
        result == (is_zero(sum) || !bits::finite(sum)),
{
    sum == ZERO_BITS || sum == SIGN_BIT || !bits::is_finite(sum)
}

/// Why the rows of a list of this length are not normalised.
pub open spec fn softmax_shape_refusal(len: int, width: usize) -> Option<Seq<char>> {
    if width == 0 {
        Some("xasr softmax width must be > 0"@)
    } else if len % width as int != 0 {
        Some(
            "xasr softmax input has "@ + decimal(len as nat) + " values, not divisible by width "@
                + decimal(width as nat),
        )
    } else {
        None
    }
}

/// One of the first `n` rows cannot be normalised.
pub open spec fn some_degenerate(m: FloatModel, values: Seq<u32>, width: int, n: int) -> bool {
    exists|t: int| 0 <= t < n && degenerate(m, #[trigger] part_of(values, width, t))
}

/// The rows, each normalised, or why they are not.
pub open spec fn softmax_rows(m: FloatModel, values: Seq<u32>, width: usize) -> Result<
    Seq<u32>,
    Seq<char>,
> {
    let n = values.len() as int / width as int;
    if softmax_shape_refusal(values.len() as int, width) is Some {
        Err(softmax_shape_refusal(values.len() as int, width)->0)
    } else if some_degenerate(m, values, width as int, n) {
        Err("xasr softmax produced non-finite normalization"@)
    } else {
        Ok(joined(n, |t: int| softmax_row(m, part_of(values, width as int, t))))
    }
}

/// Normalises each row of `width` values.
#[verifier::spinoff_prover]
pub fn softmax_last_dim<O: FloatOps>(ops: &O, values: &[u32], width: usize) -> (result: Result<
    Vec<u32>,
    String,
>)
    ensures
        softmax_shape_refusal(values@.len() as int, width) is Some ==> text_outcome(
            result,
            softmax_shape_refusal(values@.len() as int, width),
        ),
        result is Ok ==> result->Ok_0@.len() == values@.len(),
        float_ops::functional(ops) ==> float_ops::result_view(result) == softmax_rows(
            float_ops::model(ops),
            values@,
            width,
        ),
{
    let ghost m = float_ops::model(ops);
    if width == 0 {
        return Err(text::copy_text("xasr softmax width must be > 0"));
    }
    let count = values.len();
    if count % width != 0 {
        let mut reason = text::copy_text("xasr softmax input has ");
        text::push_number(&mut reason, count);
        reason.append(" values, not divisible by width ");
        text::push_number(&mut reason, width);
        return Err(reason);
    }
    let n = count / width;
    proof {
        vstd::arithmetic::div_mod::lemma_fundamental_div_mod(count as int, width as int);
        assert(n * width == count) by (nonlinear_arith)
            requires
                count == width * n,
        ;
    }
    let ghost part = |t: int| softmax_row(m, part_of(values@, width as int, t));
    let mut output: Vec<u32> = Vec::new();
    let mut t: usize = 0;
    assert(0 * width == 0) by (nonlinear_arith);
    while t < n
        invariant
            t <= n,
            width > 0,
            count == values@.len() == n * width,
            n == count / width,
            count % width == 0,
            m == float_ops::model(ops),
            part == (|t: int| softmax_row(m, part_of(values@, width as int, t))),
            output@.len() == t * width,
            float_ops::functional(ops) ==> {
                &&& !some_degenerate(m, values@, width as int, t as int)
                &&& output@ == joined(t as int, part)
            },
        decreases n - t,
    {
        proof {
            rows::lemma_part_bounds(t as int, n as int, width as int);
        }
        let row = vstd::slice::slice_subrange(values, t * width, (t + 1) * width);
        assert(row@ == part_of(values@, width as int, t as int));
        let (shifted, sum) = exponentials_and_sum(ops, row);
        if is_degenerate(sum) {
            proof {
                if float_ops::functional(ops) {
                    assert(degenerate(m, part_of(values@, width as int, t as int)));
                }
            }
            return Err(text::copy_text("xasr softmax produced non-finite normalization"));
        }
        let ghost before = output@;
        let mut i: usize = 0;
        while i < shifted.len()
            invariant
                i <= shifted@.len(),
                shifted@.len() == row@.len(),
                m == float_ops::model(ops),
                output@.len() == before.len() + i,
                forall|j: int| 0 <= j < before.len() ==> #[trigger] output@[j] == before[j],
                float_ops::functional(ops) ==> {
                    &&& shifted@ == exponentials(m, row@)
                    &&& sum == normalizer(m, row@)
                    &&& forall|j: int|
                        before.len() <= j < before.len() + i ==> #[trigger] output@[j]
                            == softmax_row(m, row@)[j - before.len()]
                },
            decreases shifted@.len() - i,
        {
            output.push(ops.div(shifted[i], sum));
            i = i + 1;
        }
        proof {
            if float_ops::functional(ops) {
                assert(output@ =~= before + softmax_row(m, row@));
                assert(part(t as int) == softmax_row(m, row@));
                assert(!some_degenerate(m, values@, width as int, t + 1)) by {
                    if some_degenerate(m, values@, width as int, t + 1) {
                        let k = choose|k: int|
                            0 <= k < t + 1 && degenerate(
                                m,
                                #[trigger] part_of(values@, width as int, k),
                            );
                        if k < t {
                            assert(some_degenerate(m, values@, width as int, t as int));
                        }
                    }
                }
            }
            assert(t * width + width == (t + 1) * width) by (nonlinear_arith);
        }
        t = t + 1;
    }
    Ok(output)
}

/// What rounding to the nearest number gives of sums, quotients and exponentials: an
/// exponential is not negative, or no number; a sum is finite only if what is added is, and
/// a sum of what is not negative is not below either; and what is divided by something
/// greater does not exceed one.  Patterns of what is not negative are in the order of their
/// numbers.
pub open spec fn rounds_in_order(m: FloatModel) -> bool {
    &&& forall|a: u32| bits::nan(#[trigger] (m.exp)(a)) || (m.exp)(a) <= INFINITY_BITS
    &&& forall|a: u32, b: u32|
        bits::finite(#[trigger] (m.add)(a, b)) ==> bits::finite(a) && bits::finite(b)
    &&& forall|a: u32, b: u32|
        bits::finite(#[trigger] (m.add)(a, b)) && a <= INFINITY_BITS && b <= INFINITY_BITS ==> a
            <= (m.add)(a, b) <= INFINITY_BITS && b <= (m.add)(a, b)
    &&& forall|a: u32, b: u32|
        ZERO_BITS < b < INFINITY_BITS && a <= b ==> #[trigger] (m.div)(a, b) <= ONE_BITS
}

/// No summand exceeds a finite sum.
proof fn lemma_sum_covers(m: FloatModel, values: Seq<u32>, n: int, i: int)
    requires
        rounds_in_order(m),
        0 <= i < n <= values.len(),
        forall|j: int|
            0 <= j < n ==> bits::nan(#[trigger] values[j]) || values[j] <= INFINITY_BITS,
        bits::finite(sum_of(m, values, n)),
    ensures
        values[i] <= sum_of(m, values, n) < INFINITY_BITS,
    decreases n,
{
    let before = sum_of(m, values, n - 1);
    assert(bits::finite((m.add)(before, values[n - 1])));
    assert(bits::finite(before) && bits::finite(values[n - 1]));
    assert(values[n - 1] <= INFINITY_BITS);
    if n == 1 {
        assert(before == ZERO_BITS);
    } else {
        lemma_sum_covers(m, values, n - 1, if i < n - 1 {
            i
        } else {
            0
        });
    }
}

/// Normalised exponentials lie between zero and one, where rounding keeps the order of
/// numbers.
pub proof fn law_softmax_lies_between_zero_and_one(m: FloatModel, values: Seq<u32>, i: int)
    requires
        rounds_in_order(m),
        0 <= i < values.len(),
        !degenerate(m, values),
    ensures
        ZERO_BITS <= softmax_row(m, values)[i] <= ONE_BITS,
{
    let shifted = exponentials(m, values);
    assert forall|j: int| 0 <= j < values.len() implies bits::nan(#[trigger] shifted[j])
        || shifted[j] <= INFINITY_BITS by {
        let distance = (m.sub)(values[j], largest_of(m, values, values.len() as int));
        assert(shifted[j] == (m.exp)(distance));
    }
    lemma_sum_covers(m, shifted, values.len() as int, i);
}

proof fn lemma_joined_between(n: int, part: spec_fn(int) -> Seq<u32>)
    requires
        forall|t: int, c: int|
            0 <= t < n && 0 <= c < part(t).len() ==> #[trigger] part(t)[c] <= ONE_BITS,
    ensures
        forall|i: int| 0 <= i < joined(n, part).len() ==> #[trigger] joined(n, part)[i] <= ONE_BITS,
    decreases n,
{
    if n > 0 {
        lemma_joined_between(n - 1, part);
        let before = joined(n - 1, part);
        assert forall|i: int| 0 <= i < joined(n, part).len() implies #[trigger] joined(n, part)[i]
            <= ONE_BITS by {
            if i < before.len() {
                assert(joined(n, part)[i] == before[i]);
            } else {
                assert(joined(n, part)[i] == part(n - 1)[i - before.len()]);
            }
        }
    }
}

/// So do all rows that are normalised.
pub proof fn law_softmax_rows_lie_between_zero_and_one(
    m: FloatModel,
    values: Seq<u32>,
    width: usize,
    i: int,
)
    requires
        rounds_in_order(m),
        softmax_rows(m, values, width) is Ok,
        0 <= i < softmax_rows(m, values, width)->Ok_0.len(),
    ensures
        ZERO_BITS <= softmax_rows(m, values, width)->Ok_0[i] <= ONE_BITS,
{
    let n = values.len() as int / width as int;
    let part = |t: int| softmax_row(m, part_of(values, width as int, t));
    assert forall|t: int, c: int| 0 <= t < n && 0 <= c < part(t).len() implies #[trigger] part(
        t,
    )[c] <= ONE_BITS by {
        assert(!degenerate(m, part_of(values, width as int, t)));
        law_softmax_lies_between_zero_and_one(m, part_of(values, width as int, t), c);
    }
    lemma_joined_between(n, part);
}

} // verus!
