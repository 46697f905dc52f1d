//! A device that agrees with the host: integers take the place of floats.

use vstd::prelude::*;
use crate::bits::{MINUS_THOUSAND_BITS, ONE_BITS, ZERO_BITS};
use crate::encoder_weights::StoredLinear;
use crate::float_ops::{mul_add_of, FloatModel};
use crate::parity::Device;
use crate::parity_attention::{hidden_scores, mask_entries};
use crate::reference_rows::square_sum;
use crate::rows::part_of;
use crate::softmax::{softmax_row, sum_of};
use crate::sums::dot;

verus! {

/// The sum of two numbers, modulo two to the power of thirty-two.
pub open spec fn ring_sum(a: u32, b: u32) -> u32 {
    ((a + b) % 0x1_0000_0000) as u32
}

/// The difference of two numbers, modulo two to the power of thirty-two.
pub open spec fn ring_difference(a: u32, b: u32) -> u32 {
    ((a - b) % 0x1_0000_0000) as u32
}

/// The product of two numbers, modulo two to the power of thirty-two.
pub open spec fn ring_product(a: u32, b: u32) -> u32 {
    ((a * b) % 0x1_0000_0000) as u32
}

/// The sum of products.
pub open spec fn ring_dot(xs: Seq<u32>, ys: Seq<u32>, n: int) -> u32
    decreases n,
{
    if n <= 0 {
        0
    } else {
        ring_sum(ring_dot(xs, ys, n - 1), ring_product(xs[n - 1], ys[n - 1]))
    }
}

/// A matrix times a row, plus the bias if there is one.
pub open spec fn ring_linear(
    weight: StoredLinear,
    row: Seq<u32>,
    bias: Option<Seq<u32>>,
) -> Result<Seq<u32>, Seq<char>> {
    Ok(
        Seq::new(
            weight.output_dim as nat,
            |r: int|
                {
                    let sum = ring_dot(
                        row,
                        part_of(weight.values@, weight.input_dim as int, r),
                        row.len() as int,
                    );
                    match bias {
                        Some(entries) => ring_sum(sum, entries[r]),
                        None => sum,
                    }
                },
        ),
    )
}

/// The host over integers: it adds, subtracts and multiplies; the rest leaves its
/// argument as it is.
pub open spec fn ring_host() -> FloatModel {
    FloatModel {
        add: |a: u32, b: u32| ring_sum(a, b),
        sub: |a: u32, b: u32| ring_difference(a, b),
        mul: |a: u32, b: u32| ring_product(a, b),
        div: |a: u32, b: u32| a,
        max: |a: u32, b: u32| a,
        min: |a: u32, b: u32| a,
        exp: |a: u32| a,
        ln: |a: u32| a,
        inverse_sqrt: |a: u32| 1u32,
        tanh: |a: u32| a,
        sigmoid: |a: u32| a,
        softplus: |a: u32| a,
        from_count: |n: int| n as u32,
        position_angle: |d: int, o: int| 0u32,
        cos_multiple: |a: u32, n: int| a,
        sin_multiple: |a: u32, n: int| a,
        apply_linear: |w: StoredLinear, x: Seq<u32>, b: Option<Seq<u32>>| ring_linear(w, x, b),
    }
}

/// A device over integers.
pub open spec fn ring_device() -> Device {
    let m = ring_host();
    Device {
        leaves: |leaf: int, i0: int, i1: int, i2: int, i3: int| 0u32,
        host: m,
        dot: |a: Seq<u32>, b: Seq<u32>| ring_dot(b, a, b.len() as int),
        mean: |values: Seq<u32>| sum_of(m, values, values.len() as int),
        square_root: |v: u32| v,
        softplus: |v: u32| v,
        masked_softmax: |row: Seq<u32>, mask: Option<Seq<u32>>, scale: u32, max_bias: u32|
            match mask {
                Some(entries) => softmax_row(
                    m,
                    hidden_scores(
                        row,
                        Seq::new(entries.len(), |i: int| entries[i] == MINUS_THOUSAND_BITS),
                    ),
                ),
                None => softmax_row(m, row),
            },
        arg_max: |values: Seq<u32>| 0u32,
    }
}

/// Sums may be taken in any order.
proof fn lemma_ring_sums(a: u32, b: u32, c: u32)
    ensures
        ring_sum(ring_sum(a, b), c) == ring_sum(ring_sum(a, c), b),
        ring_sum(0, a) == a,
        ring_sum(a, 0) == a,
        ring_product(0, a) == 0,
        ring_product(1, a) == a,
{
    assert(0 * a == 0 && 1 * a == a) by (nonlinear_arith);
}

/// A sum of products that starts with a number.
proof fn lemma_ring_dot(start: u32, xs: Seq<u32>, ys: Seq<u32>, n: int)
    ensures
        dot(ring_host(), start, xs, 0, ys, 0, n) == ring_sum(start, ring_dot(xs, ys, n)),
        dot(ring_host(), start, xs, 0, ys, 0, n) == ring_sum(ring_dot(xs, ys, n), start),
    decreases n,
{
    lemma_ring_sums(start, 0, 0);
    if n > 0 {
        lemma_ring_dot(start, xs, ys, n - 1);
        lemma_ring_sums(
            ring_dot(xs, ys, n - 1),
            ring_product(xs[n - 1], ys[n - 1]),
            start,
        );
    }
}

/// The sum of squared distances.
proof fn lemma_ring_squares(row: Seq<u32>, bias: Seq<u32>, n: int)
    requires
        n <= row.len(),
    ensures
        sum_of(ring_host(), ring_device().squares(row, bias), n) == square_sum(
            ring_host(),
            row,
            bias,
            n,
        ),
    decreases n,
{
    if n > 0 {
        lemma_ring_squares(row, bias, n - 1);
    }
}

/// The demands on a device can be met, all at once.
pub proof fn law_a_device_can_agree_with_the_host()
    ensures
        ring_device().agrees_with_the_host(),
        ring_device().averages_as_the_host(),
        ring_device().normalizes_as_the_host(),
{
    let device = ring_device();
    let m = device.host;
    assert(device.multiplies_as_the_host()) by {
        assert forall|weight: StoredLinear, row: Seq<u32>, bias: Seq<u32>|
            row.len() == weight.input_dim && bias.len() == weight.output_dim
                && weight.values@.len() == weight.output_dim * weight.input_dim implies
            #[trigger] (m.apply_linear)(weight, row, Some(bias)) == Ok::<Seq<u32>, Seq<char>>(
            device.product(weight, row, bias),
        ) by {
            assert(ring_linear(weight, row, Some(bias))->Ok_0 =~= device.product(
                weight,
                row,
                bias,
            ));
        }
    }
    assert(device.activates_as_the_host());
    assert(device.norms_as_the_host()) by {
        assert forall|row: Seq<u32>, bias: Seq<u32>|
            (device.mean)(#[trigger] device.squares(row, bias)) == (m.div)(
                square_sum(m, row, bias, row.len() as int),
                (m.from_count)(row.len() as int),
            ) by {
            lemma_ring_squares(row, bias, row.len() as int);
        }
        assert forall|v: u32, mean: u32, factor: u32|
            #[trigger] (m.mul)((m.div)(v, (device.square_root)(mean)), factor) == (m.mul)(
                v,
                (m.mul)((m.inverse_sqrt)(mean), factor),
            ) by {
            lemma_ring_sums(factor, 0, 0);
        }
    }
    assert(device.convolves_as_the_host()) by {
        assert forall|inputs: Seq<u32>, kernel: Seq<u32>, bias: u32|
            inputs.len() == kernel.len() implies #[trigger] (m.add)(
            (device.dot)(kernel, inputs),
            bias,
        ) == dot(m, bias, inputs, 0, kernel, 0, kernel.len() as int) by {
            lemma_ring_dot(bias, inputs, kernel, kernel.len() as int);
        }
        assert forall|sum: u32, factor: u32|
            #[trigger] mul_add_of(m, sum, ZERO_BITS, factor) == sum by {
            lemma_ring_sums(sum, factor, 0);
            lemma_ring_sums(factor, 0, 0);
        }
    }
    assert(device.attends_as_the_host()) by {
        assert forall|weight: StoredLinear, row: Seq<u32>|
            row.len() == weight.input_dim && weight.values@.len() == weight.output_dim
                * weight.input_dim implies #[trigger] (m.apply_linear)(weight, row, None) == Ok::<
            Seq<u32>,
            Seq<char>,
        >(device.plain_product(weight, row)) by {
            assert(ring_linear(weight, row, None)->Ok_0 =~= device.plain_product(weight, row));
        }
        assert forall|key: Seq<u32>, query: Seq<u32>, position: Seq<u32>, place: Seq<u32>|
            key.len() == query.len() && position.len() == place.len() implies #[trigger] (m.add)(
            (device.dot)(key, query),
            (device.dot)(position, place),
        ) == dot(
            m,
            dot(m, ZERO_BITS, query, 0, key, 0, key.len() as int),
            place,
            0,
            position,
            0,
            position.len() as int,
        ) by {
            let content = ring_dot(query, key, key.len() as int);
            lemma_ring_dot(ZERO_BITS, query, key, key.len() as int);
            lemma_ring_sums(content, 0, 0);
            lemma_ring_dot(content, place, position, position.len() as int);
        }
        assert forall|values: Seq<u32>, weights: Seq<u32>|
            values.len() == weights.len() implies #[trigger] (device.dot)(values, weights) == dot(
            m,
            ZERO_BITS,
            weights,
            0,
            values,
            0,
            values.len() as int,
        ) by {
            let sum = ring_dot(weights, values, values.len() as int);
            lemma_ring_dot(ZERO_BITS, weights, values, values.len() as int);
            lemma_ring_sums(sum, 0, 0);
        }
        assert forall|scores: Seq<u32>, masked: Seq<bool>|
            scores.len() == masked.len() implies #[trigger] (device.masked_softmax)(
            scores,
            Some(mask_entries(masked)),
            ONE_BITS,
            ZERO_BITS,
        ) == softmax_row(m, hidden_scores(scores, masked)) by {
            let entries = mask_entries(masked);
            assert(Seq::new(entries.len(), |i: int| entries[i] == MINUS_THOUSAND_BITS) =~= masked);
        }
    }
    assert(device.averages_as_the_host()) by {
        assert forall|v: u32| #[trigger] (m.add)(ZERO_BITS, v) == v by {
            lemma_ring_sums(v, 0, 0);
        }
    }
}

} // verus!
