//! Arithmetic on float bit patterns.
//!
//! The library decides which elements meet in which order; the sums and
//! products themselves are left to an implementation of [`FloatOps`].  Nothing
//! is assumed of an implementation.  Where its operations are functions of
//! their operands, results are stated with the functions that describe them.

use vstd::prelude::*;
use crate::encoder_weights::StoredLinear;

verus! {

/// Operations on 32-bit float bit patterns.
pub trait FloatOps {
    /// `left + right`.
    fn add(&self, left: u32, right: u32) -> u32;

    /// `left - right`.
    fn sub(&self, left: u32, right: u32) -> u32;

    /// `left * right`.
    fn mul(&self, left: u32, right: u32) -> u32;

    /// `left / right`.
    fn div(&self, left: u32, right: u32) -> u32;

    /// The larger of two numbers, ignoring a NaN.
    fn max(&self, left: u32, right: u32) -> u32;

    /// The smaller of two numbers, ignoring a NaN.
    fn min(&self, left: u32, right: u32) -> u32;

    /// The exponential.
    fn exp(&self, value: u32) -> u32;

    /// The natural logarithm.
    fn ln(&self, value: u32) -> u32;

    /// `value` to the power of minus one half.
    fn inverse_sqrt(&self, value: u32) -> u32;

    /// The hyperbolic tangent.
    fn tanh(&self, value: u32) -> u32;

    /// The logistic function.
    fn sigmoid(&self, value: u32) -> u32;

    /// `ln(1 + exp(value))`.
    fn softplus(&self, value: u32) -> u32;

    /// The number nearest to a count.
    fn from_count(&self, count: usize) -> u32;

    /// The angle by which a position embedding of `dim` elements turns for a
    /// frame `offset` frames away.
    fn position_angle(&self, dim: usize, offset: i128) -> u32;

    /// The cosine of `multiple * angle`.
    fn cos_multiple(&self, angle: u32, multiple: usize) -> u32;

    /// The sine of `multiple * angle`.
    fn sin_multiple(&self, angle: u32, multiple: usize) -> u32;

    /// The weight matrix times `input`, plus the bias if there is one.
    fn apply_linear(&self, weight: &StoredLinear, input: &[u32], bias: Option<&[u32]>) -> Result<
        Vec<u32>,
        String,
    >;
}

/// Functions that describe the operations of an implementation.
pub struct FloatModel {
    pub add: spec_fn(u32, u32) -> u32,
    pub sub: spec_fn(u32, u32) -> u32,
    pub mul: spec_fn(u32, u32) -> u32,
    pub div: spec_fn(u32, u32) -> u32,
    pub max: spec_fn(u32, u32) -> u32,
    pub min: spec_fn(u32, u32) -> u32,
    pub exp: spec_fn(u32) -> u32,
    pub ln: spec_fn(u32) -> u32,
    pub inverse_sqrt: spec_fn(u32) -> u32,
    pub tanh: spec_fn(u32) -> u32,
    pub sigmoid: spec_fn(u32) -> u32,
    pub softplus: spec_fn(u32) -> u32,
    pub from_count: spec_fn(int) -> u32,
    pub position_angle: spec_fn(int, int) -> u32,
    pub cos_multiple: spec_fn(u32, int) -> u32,
    pub sin_multiple: spec_fn(u32, int) -> u32,
    pub apply_linear: spec_fn(StoredLinear, Seq<u32>, Option<Seq<u32>>) -> Result<
        Seq<u32>,
        Seq<char>,
    >,
}

/// A result of vectors and texts by its contents.
pub open spec fn result_view(result: Result<Vec<u32>, String>) -> Result<Seq<u32>, Seq<char>> {
    match result {
        Ok(values) => Ok(values@),
        Err(reason) => Err(reason@),
    }
}

/// An optional slice by its contents.
pub open spec fn option_view(values: Option<&[u32]>) -> Option<Seq<u32>> {
    match values {
        Some(slice) => Some(slice@),
        None => None,
    }
}

/// Each operation of `ops` returns what `m` gives for its operands.
pub open spec fn describes<O: FloatOps>(ops: &O, m: FloatModel) -> bool {
    &&& forall|a: u32, b: u32, r: u32|
        #[trigger] call_ensures(O::add, (ops, a, b), r) ==> r == (m.add)(a, b)
    &&& forall|a: u32, b: u32, r: u32|
        #[trigger] call_ensures(O::sub, (ops, a, b), r) ==> r == (m.sub)(a, b)
    &&& forall|a: u32, b: u32, r: u32|
        #[trigger] call_ensures(O::mul, (ops, a, b), r) ==> r == (m.mul)(a, b)
    &&& forall|a: u32, b: u32, r: u32|
        #[trigger] call_ensures(O::div, (ops, a, b), r) ==> r == (m.div)(a, b)
    &&& forall|a: u32, b: u32, r: u32|
        #[trigger] call_ensures(O::max, (ops, a, b), r) ==> r == (m.max)(a, b)
    &&& forall|a: u32, b: u32, r: u32|
        #[trigger] call_ensures(O::min, (ops, a, b), r) ==> r == (m.min)(a, b)
    &&& forall|a: u32, r: u32| #[trigger] call_ensures(O::exp, (ops, a), r) ==> r == (m.exp)(a)
    &&& forall|a: u32, r: u32| #[trigger] call_ensures(O::ln, (ops, a), r) ==> r == (m.ln)(a)
    &&& forall|a: u32, r: u32|
        #[trigger] call_ensures(O::inverse_sqrt, (ops, a), r) ==> r == (m.inverse_sqrt)(a)
    &&& forall|a: u32, r: u32| #[trigger] call_ensures(O::tanh, (ops, a), r) ==> r == (m.tanh)(a)
    &&& forall|a: u32, r: u32|
        #[trigger] call_ensures(O::sigmoid, (ops, a), r) ==> r == (m.sigmoid)(a)
    &&& forall|a: u32, r: u32|
        #[trigger] call_ensures(O::softplus, (ops, a), r) ==> r == (m.softplus)(a)
    &&& forall|n: usize, r: u32|
        #[trigger] call_ensures(O::from_count, (ops, n), r) ==> r == (m.from_count)(n as int)
    &&& forall|d: usize, o: i128, r: u32|
        #[trigger] call_ensures(O::position_angle, (ops, d, o), r) ==> r == (m.position_angle)(
            d as int,
            o as int,
        )
    &&& forall|a: u32, n: usize, r: u32|
        #[trigger] call_ensures(O::cos_multiple, (ops, a, n), r) ==> r == (m.cos_multiple)(
            a,
            n as int,
        )
    &&& forall|a: u32, n: usize, r: u32|
        #[trigger] call_ensures(O::sin_multiple, (ops, a, n), r) ==> r == (m.sin_multiple)(
            a,
            n as int,
        )
    &&& forall|w: &StoredLinear, x: &[u32], b: Option<&[u32]>, r: Result<Vec<u32>, String>|
        #[trigger] call_ensures(O::apply_linear, (ops, w, x, b), r) ==> result_view(r) == (
        m.apply_linear)(*w, x@, option_view(b))
}

/// The operations of `ops` are functions of their operands.
pub open spec fn functional<O: FloatOps>(ops: &O) -> bool {
    exists|m: FloatModel| describes(ops, m)
}

/// The functions that describe the operations of `ops`.
pub open spec fn model<O: FloatOps>(ops: &O) -> FloatModel {
    choose|m: FloatModel| describes(ops, m)
}

/// Products of `ops` with a weight matrix are as long as the matrix is high.
pub open spec fn sized<O: FloatOps>(ops: &O) -> bool {
    forall|w: &StoredLinear, x: &[u32], b: Option<&[u32]>, r: Result<Vec<u32>, String>|
        #[trigger] call_ensures(O::apply_linear, (ops, w, x, b), r) ==> (r matches Ok(v)
            ==> v@.len() == w.output_dim)
}

/// `acc + left * right`.
pub open spec fn mul_add_of(m: FloatModel, acc: u32, left: u32, right: u32) -> u32 {
    (m.add)(acc, (m.mul)(left, right))
}

/// Adds a product to a sum.
pub fn mul_add<O: FloatOps>(ops: &O, acc: u32, left: u32, right: u32) -> (result: u32)
    ensures
        functional(ops) ==> result == mul_add_of(model(ops), acc, left, right),
{
    let product = ops.mul(left, right);
    ops.add(acc, product)
}

} // verus!
