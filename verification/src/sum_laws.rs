//! What sums of products, largest values and normalised exponentials are.

use vstd::prelude::*;
use crate::bits::{nan, total_order_key};
use crate::float_ops::FloatModel;
use crate::rows::{lemma_joined_at, lemma_part_bounds, part_of};
use crate::softmax::{exponentials, largest_of, softmax_row, softmax_rows, sum_of};
use crate::sums::dot;

verus! {

/// The products of two lists, place by place.
pub open spec fn products(m: FloatModel, xs: Seq<u32>, ys: Seq<u32>) -> Seq<u32> {
    Seq::new(xs.len(), |i: int| (m.mul)(xs[i], ys[i]))
}

/// A list summed up from its beginning.
pub open spec fn summed(m: FloatModel, start: u32, terms: Seq<u32>) -> u32 {
    terms.fold_left(start, |sum: u32, term: u32| (m.add)(sum, term))
}

/// A sum of products is the products of the two parts, place by place, added one after the
/// other to what the sum starts with.
pub proof fn law_a_sum_of_products_adds_every_product(
    m: FloatModel,
    start: u32,
    xs: Seq<u32>,
    x_from: int,
    ys: Seq<u32>,
    y_from: int,
    n: int,
)
    requires
        0 <= n,
        0 <= x_from,
        x_from + n <= xs.len(),
        0 <= y_from,
        y_from + n <= ys.len(),
    ensures
        dot(m, start, xs, x_from, ys, y_from, n) == summed(
            m,
            start,
            products(m, xs.subrange(x_from, x_from + n), ys.subrange(y_from, y_from + n)),
        ),
    decreases n,
{
    let terms = products(m, xs.subrange(x_from, x_from + n), ys.subrange(y_from, y_from + n));
    if n > 0 {
        law_a_sum_of_products_adds_every_product(m, start, xs, x_from, ys, y_from, n - 1);
        assert(terms.drop_last() =~= products(
            m,
            xs.subrange(x_from, x_from + n - 1),
            ys.subrange(y_from, y_from + n - 1),
        ));
    }
}

/// A plain sum adds every entry to zero, one after the other.
proof fn lemma_plain_sum(m: FloatModel, values: Seq<u32>, n: int)
    requires
        0 <= n <= values.len(),
    ensures
        sum_of(m, values, n) == summed(m, 0, values.take(n)),
    decreases n,
{
    if n > 0 {
        lemma_plain_sum(m, values, n - 1);
        assert(values.take(n).drop_last() =~= values.take(n - 1));
    }
}

/// Of two numbers the operation gives the greater, and of a number and minus infinity the
/// number.
pub open spec fn gives_the_greater(m: FloatModel) -> bool {
    forall|a: u32, b: u32|
        !nan(a) && !nan(b) ==> #[trigger] (m.max)(a, b) == if total_order_key(a)
            >= total_order_key(b) {
            a
        } else {
            b
        }
}

proof fn lemma_largest(m: FloatModel, values: Seq<u32>, n: int)
    requires
        gives_the_greater(m),
        0 <= n <= values.len(),
        forall|i: int| 0 <= i < values.len() ==> !nan(#[trigger] values[i]),
    ensures
        !nan(largest_of(m, values, n)),
        forall|i: int|
            0 <= i < n ==> total_order_key(#[trigger] values[i]) <= total_order_key(
                largest_of(m, values, n),
            ),
        largest_of(m, values, n) == 0xff80_0000 || exists|i: int|
            0 <= i < n && #[trigger] values[i] == largest_of(m, values, n),
    decreases n,
{
    if n > 0 {
        lemma_largest(m, values, n - 1);
        assert(!nan(values[n - 1]));
        let before = largest_of(m, values, n - 1);
        assert((m.max)(before, values[n - 1]) == largest_of(m, values, n));
        assert forall|i: int| 0 <= i < n implies total_order_key(#[trigger] values[i])
            <= total_order_key(largest_of(m, values, n)) by {
            if i < n - 1 {
                assert(total_order_key(values[i]) <= total_order_key(before));
            }
        }
        if largest_of(m, values, n) == before {
            if before != 0xff80_0000 {
                let i = choose|i: int| 0 <= i < n - 1 && #[trigger] values[i] == before;
                assert(values[i] == largest_of(m, values, n));
            }
        } else {
            assert(values[n - 1] == largest_of(m, values, n));
        }
    }
}

/// The share of entry `c` in a row: the exponential of its distance to `top`, which none of
/// the row exceeds, over the sum of all of these.
pub open spec fn is_share(m: FloatModel, row: Seq<u32>, top: u32, c: int, share: u32) -> bool {
    &&& forall|i: int|
        0 <= i < row.len() ==> total_order_key(#[trigger] row[i]) <= total_order_key(top)
    &&& top == 0xff80_0000 || row.contains(top)
    &&& share == (m.div)(
        (m.exp)((m.sub)(row[c], top)),
        summed(m, 0, row.map_values(|entry: u32| (m.exp)((m.sub)(entry, top)))),
    )
}

/// Every entry of a normalised row is its share.
pub proof fn law_a_normalised_row_is_made_of_shares(m: FloatModel, row: Seq<u32>, c: int) -> (top:
    u32)
    requires
        gives_the_greater(m),
        0 <= c < row.len(),
        forall|i: int| 0 <= i < row.len() ==> !nan(#[trigger] row[i]),
    ensures
        softmax_row(m, row).len() == row.len(),
        is_share(m, row, top, c, softmax_row(m, row)[c]),
{
    let w = row.len() as int;
    lemma_largest(m, row, w);
    let top = largest_of(m, row, w);
    if top != 0xff80_0000 {
        let i = choose|i: int| 0 <= i < w && #[trigger] row[i] == top;
        assert(row.contains(top));
    }
    let shares = row.map_values(|entry: u32| (m.exp)((m.sub)(entry, top)));
    assert(exponentials(m, row) =~= shares);
    lemma_plain_sum(m, shares, w);
    assert(shares.take(w) =~= shares);
    top
}

/// Each row of a normalised table is made of its own entries alone: every entry is its share.
pub proof fn law_normalised_rows_are_shares(
    m: FloatModel,
    values: Seq<u32>,
    width: usize,
    t: int,
    c: int,
)
    requires
        gives_the_greater(m),
        softmax_rows(m, values, width) is Ok,
        0 <= t,
        (t + 1) * width <= values.len(),
        0 <= c < width,
        forall|i: int| 0 <= i < values.len() ==> !nan(#[trigger] values[i]),
    ensures
        softmax_rows(m, values, width)->Ok_0.len() == values.len(),
        exists|top: u32|
            #[trigger] is_share(
                m,
                values.subrange(t * width, (t + 1) * width),
                top,
                c,
                softmax_rows(m, values, width)->Ok_0[t * width + c],
            ),
{
    let w = width as int;
    let n = values.len() as int / w;
    vstd::arithmetic::div_mod::lemma_fundamental_div_mod(values.len() as int, w);
    assert(values.len() == n * w) by (nonlinear_arith)
        requires
            values.len() == w * n + 0,
    ;
    assert(t < n) by (nonlinear_arith)
        requires
            (t + 1) * w <= n * w,
            0 < w,
    ;
    let part = |t: int| softmax_row(m, part_of(values, width as int, t));
    assert forall|i: int| 0 <= i < n implies (#[trigger] part(i)).len() == w by {
        lemma_part_bounds(i, n, w);
    }
    lemma_joined_at(n, part, w, t, c);
    lemma_part_bounds(t, n, w);
    let row = part_of(values, w, t);
    assert forall|i: int| 0 <= i < row.len() implies !nan(#[trigger] row[i]) by {
        assert(row[i] == values[t * w + i]);
    }
    let top = law_a_normalised_row_is_made_of_shares(m, row, c);
    let entry = softmax_rows(m, values, width)->Ok_0[t * w + c];
    assert(entry == part(t)[c]);
    assert(is_share(m, row, top, c, entry));
}

} // verus!
