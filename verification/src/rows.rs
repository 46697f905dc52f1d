//! Lists made of equally long parts.

use vstd::prelude::*;
use crate::bits::ZERO_BITS;

verus! {

/// The parts `part(0)`, ..., `part(n - 1)` one after the other.
pub open spec fn joined(n: int, part: spec_fn(int) -> Seq<u32>) -> Seq<u32>
    decreases n,
{
    if n <= 0 {
        Seq::empty()
    } else {
        joined(n - 1, part) + part(n - 1)
    }
}

/// Part `index` of a list of parts of `width` elements.
pub open spec fn part_of(values: Seq<u32>, width: int, index: int) -> Seq<u32> {
    values.subrange(index * width, (index + 1) * width)
}

/// A list of zeros.
pub open spec fn zero_seq(n: nat) -> Seq<u32> {
    Seq::new(n, |i: int| ZERO_BITS)
}

/// A vector of zeros.
pub fn zeros(n: usize) -> (values: Vec<u32>)
    ensures
        values@ == zero_seq(n as nat),
{
    let values = vec![ZERO_BITS; n];
    assert(values@ =~= zero_seq(n as nat));
    values
}

/// Part `index` lies within `count` parts of `width` elements.
pub proof fn lemma_part_bounds(index: int, count: int, width: int)
    requires
        0 <= index < count,
        0 <= width,
    ensures
        0 <= index * width,
        index * width + width == (index + 1) * width,
        (index + 1) * width <= count * width,
{
    assert(0 <= index * width && index * width + width == (index + 1) * width && (index + 1) * width
        <= count * width) by (nonlinear_arith)
        requires
            0 <= index < count,
            0 <= width,
    ;
}

/// Equally long parts fill a list of that many times their length.
pub proof fn lemma_joined_len(n: int, part: spec_fn(int) -> Seq<u32>, width: int)
    requires
        n >= 0,
        width >= 0,
        forall|i: int| 0 <= i < n ==> (#[trigger] part(i)).len() == width,
    ensures
        joined(n, part).len() == n * width,
    decreases n,
{
    if n > 0 {
        lemma_joined_len(n - 1, part, width);
        assert((n - 1) * width + width == n * width) by (nonlinear_arith);
    } else {
        assert(0 * width == 0) by (nonlinear_arith);
    }
}

/// Element `c` of part `t` stands at position `t * width + c`.
pub proof fn lemma_joined_at(n: int, part: spec_fn(int) -> Seq<u32>, width: int, t: int, c: int)
    requires
        0 <= t < n,
        0 <= c < width,
        forall|i: int| 0 <= i < n ==> (#[trigger] part(i)).len() == width,
    ensures
        joined(n, part).len() == n * width,
        0 <= t * width + c < n * width,
        joined(n, part)[t * width + c] == part(t)[c],
    decreases n,
{
    lemma_joined_len(n, part, width);
    lemma_joined_len(n - 1, part, width);
    lemma_part_bounds(t, n, width);
    assert((n - 1) * width + width == n * width) by (nonlinear_arith);
    if t < n - 1 {
        lemma_joined_at(n - 1, part, width, t, c);
    }
}

/// A list of parts is the parts joined again.
pub proof fn lemma_joined_parts(values: Seq<u32>, n: int, width: int)
    requires
        n >= 0,
        width >= 0,
        values.len() == n * width,
    ensures
        joined(n, |i: int| part_of(values, width, i)) == values,
    decreases n,
{
    let part = |i: int| part_of(values, width, i);
    if n > 0 {
        lemma_part_bounds(n - 1, n, width);
        let shorter = values.take((n - 1) * width);
        lemma_joined_parts(shorter, n - 1, width);
        let shorter_part = |i: int| part_of(shorter, width, i);
        assert forall|i: int| 0 <= i < n - 1 implies #[trigger] part(i) == shorter_part(i) by {
            lemma_part_bounds(i, n - 1, width);
            assert(part_of(values, width, i) =~= part_of(shorter, width, i));
        }
        lemma_joined_same(n - 1, part, shorter_part);
        assert(joined(n, part) =~= values);
    } else {
        assert(0 * width == 0) by (nonlinear_arith);
        assert(joined(n, part) =~= values);
    }
}

/// Equal parts join to equal lists.
pub proof fn lemma_joined_same(n: int, f: spec_fn(int) -> Seq<u32>, g: spec_fn(int) -> Seq<u32>)
    requires
        forall|i: int| 0 <= i < n ==> #[trigger] f(i) == g(i),
    ensures
        joined(n, f) == joined(n, g),
    decreases n,
{
    if n > 0 {
        lemma_joined_same(n - 1, f, g);
        assert(f(n - 1) == g(n - 1));
    }
}

} // verus!
