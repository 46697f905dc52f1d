//! The joiner: logits from an encoder frame and a predictor state.
//!
//! The projection of a frame is computed once for the frame, and that of a
//! predictor state once for the state; both stay in a scratch.

use vstd::prelude::*;
use vstd::string::StringExecFns;
use crate::decoder::text_outcome;
use crate::encoder_weights::StoredLinear;
use crate::float_ops;
use crate::float_ops::{FloatModel, FloatOps};
use crate::rows;
use crate::rows::zero_seq;
use crate::softmax::{exponentials, exponentials_and_sum, normalizer};
use crate::text;
use crate::text::decimal;

verus! {

/// Weights of the joiner.
#[derive(Clone, Debug, PartialEq)]
pub struct XasrJoinerWeights {
    pub encoder_proj_weight: StoredLinear,
    pub encoder_proj_bias: Vec<u32>,
    pub decoder_proj_weight: StoredLinear,
    pub decoder_proj_bias: Vec<u32>,
    pub output_linear_weight: StoredLinear,
    pub output_linear_bias: Vec<u32>,
}

/// The joiner of a model.
#[derive(Clone, Debug, PartialEq)]
pub struct XasrJoiner {
    weights: XasrJoinerWeights,
}

/// Projections and results of the joiner.
#[derive(Clone, Debug)]
pub struct XasrJoinerScratch {
    pub enc: Vec<u32>,
    pub dec: Vec<u32>,
    pub joined: Vec<u32>,
    pub logits: Vec<u32>,
}

/// What a weight matrix and its bias make of `input`.
pub open spec fn projected(
    m: FloatModel,
    weight: StoredLinear,
    bias: Seq<u32>,
    input: Seq<u32>,
) -> Result<Seq<u32>, Seq<char>> {
    (m.apply_linear)(weight, input, Some(bias))
}

/// The hyperbolic tangents of the sums of both projections.  Places beyond
/// either of them keep what they held.
pub open spec fn joined_state(
    m: FloatModel,
    joined: Seq<u32>,
    enc: Seq<u32>,
    dec: Seq<u32>,
) -> Seq<u32> {
    Seq::new(
        joined.len(),
        |i: int|
            if i < enc.len() && i < dec.len() {
                (m.tanh)((m.add)(enc[i], dec[i]))
            } else {
                joined[i]
            },
    )
}

/// What the output layer makes of the joined projections.
pub open spec fn joined_logits(
    m: FloatModel,
    weights: XasrJoinerWeights,
    joined: Seq<u32>,
    enc: Seq<u32>,
    dec: Seq<u32>,
) -> Result<Seq<u32>, Seq<char>> {
    if enc.len() != dec.len() {
        Err(
            "xasr joiner projected dims differ: encoder "@ + decimal(enc.len()) + " vs decoder "@
                + decimal(dec.len()),
        )
    } else {
        projected(
            m,
            weights.output_linear_weight,
            weights.output_linear_bias@,
            joined_state(m, joined, enc, dec),
        )
    }
}

impl XasrJoiner {
    pub closed spec fn spec_weights(self) -> XasrJoinerWeights {
        self.weights
    }

    /// A joiner.
    pub fn new(weights: XasrJoinerWeights) -> (joiner: Self)
        ensures
            joiner.spec_weights() == weights,
    {
        XasrJoiner { weights }
    }

    /// A scratch of zeros.
    pub fn scratch(&self) -> (scratch: XasrJoinerScratch)
        ensures
            scratch.enc@ == zero_seq(self.spec_weights().encoder_proj_weight.output_dim as nat),
            scratch.dec@ == zero_seq(self.spec_weights().decoder_proj_weight.output_dim as nat),
            scratch.joined@ == zero_seq(self.spec_weights().encoder_proj_weight.output_dim as nat),
            scratch.logits@ == zero_seq(
                self.spec_weights().output_linear_weight.output_dim as nat,
            ),
    {
        XasrJoinerScratch {
            enc: rows::zeros(self.weights.encoder_proj_weight.output_dim),
            dec: rows::zeros(self.weights.decoder_proj_weight.output_dim),
            joined: rows::zeros(self.weights.encoder_proj_weight.output_dim),
            logits: rows::zeros(self.weights.output_linear_weight.output_dim),
        }
    }

    /// Projects an encoder frame into the scratch.
    pub fn project_encoder_frame<O: FloatOps>(
        &self,
        ops: &O,
        encoder_frame: &[u32],
        scratch: &mut XasrJoinerScratch,
    ) -> (result: Result<(), String>)
        ensures
            final(scratch).dec == old(scratch).dec,
            final(scratch).joined == old(scratch).joined,
            final(scratch).logits == old(scratch).logits,
            result is Err ==> final(scratch).enc == old(scratch).enc,
            result is Ok && float_ops::sized(ops) ==> final(scratch).enc@.len()
                == self.spec_weights().encoder_proj_weight.output_dim,
            float_ops::functional(ops) ==> (match projected(
                float_ops::model(ops),
                self.spec_weights().encoder_proj_weight,
                self.spec_weights().encoder_proj_bias@,
                encoder_frame@,
            ) {
                Ok(values) => result is Ok && final(scratch).enc@ == values,
                Err(reason) => result is Err && result->Err_0@ == reason,
            }),
    {
        let values = ops.apply_linear(
            &self.weights.encoder_proj_weight,
            encoder_frame,
            Some(self.weights.encoder_proj_bias.as_slice()),
        )?;
        scratch.enc = values;
        Ok(())
    }

    /// Projects a predictor state into the scratch.
    pub fn project_decoder_state<O: FloatOps>(
        &self,
        ops: &O,
        decoder_state: &[u32],
        scratch: &mut XasrJoinerScratch,
    ) -> (result: Result<(), String>)
        ensures
            final(scratch).enc == old(scratch).enc,
            final(scratch).joined == old(scratch).joined,
            final(scratch).logits == old(scratch).logits,
            result is Err ==> final(scratch).dec == old(scratch).dec,
            result is Ok && float_ops::sized(ops) ==> final(scratch).dec@.len()
                == self.spec_weights().decoder_proj_weight.output_dim,
            float_ops::functional(ops) ==> (match projected(
                float_ops::model(ops),
                self.spec_weights().decoder_proj_weight,
                self.spec_weights().decoder_proj_bias@,
                decoder_state@,
            ) {
                Ok(values) => result is Ok && final(scratch).dec@ == values,
                Err(reason) => result is Err && result->Err_0@ == reason,
            }),
    {
        let values = ops.apply_linear(
            &self.weights.decoder_proj_weight,
            decoder_state,
            Some(self.weights.decoder_proj_bias.as_slice()),
        )?;
        scratch.dec = values;
        Ok(())
    }

    /// Computes the logits of the projections in the scratch.
    #[verifier::spinoff_prover]
    pub fn logits_from_projected<O: FloatOps>(
        &self,
        ops: &O,
        scratch: &mut XasrJoinerScratch,
    ) -> (result: Result<(), String>)
        ensures
            final(scratch).enc == old(scratch).enc,
            final(scratch).dec == old(scratch).dec,
            final(scratch).joined@.len() == old(scratch).joined@.len(),
            result is Err ==> final(scratch).logits == old(scratch).logits,
            old(scratch).enc@.len() != old(scratch).dec@.len() ==> result is Err
                && final(scratch).joined == old(scratch).joined,
            float_ops::functional(ops) ==> (match joined_logits(
                float_ops::model(ops),
                self.spec_weights(),
                old(scratch).joined@,
                old(scratch).enc@,
                old(scratch).dec@,
            ) {
                Ok(values) => result is Ok && final(scratch).logits@ == values
                    && final(scratch).joined@ == joined_state(
                    float_ops::model(ops),
                    old(scratch).joined@,
                    old(scratch).enc@,
                    old(scratch).dec@,
                ),
                Err(reason) => result is Err && result->Err_0@ == reason,
            }),
    {
        if scratch.enc.len() != scratch.dec.len() {
            let mut reason = text::copy_text("xasr joiner projected dims differ: encoder ");
            text::push_number(&mut reason, scratch.enc.len());
            reason.append(" vs decoder ");
            text::push_number(&mut reason, scratch.dec.len());
            return Err(reason);
        }
        let ghost m = float_ops::model(ops);
        let mut joined: Vec<u32> = Vec::new();
        let mut i: usize = 0;
        while i < scratch.joined.len()
            invariant
                i <= scratch.joined@.len(),
                m == float_ops::model(ops),
                joined@.len() == i,
                float_ops::functional(ops) ==> forall|j: int|
                    0 <= j < i ==> #[trigger] joined@[j] == joined_state(
                        m,
                        scratch.joined@,
                        scratch.enc@,
                        scratch.dec@,
                    )[j],
            decreases scratch.joined@.len() - i,
        {
            if i < scratch.enc.len() && i < scratch.dec.len() {
                let sum = ops.add(scratch.enc[i], scratch.dec[i]);
                joined.push(ops.tanh(sum));
            } else {
                joined.push(scratch.joined[i]);
            }
            i = i + 1;
        }
        proof {
            if float_ops::functional(ops) {
                assert(joined@ =~= joined_state(m, scratch.joined@, scratch.enc@, scratch.dec@));
            }
        }
        scratch.joined = joined;
        let logits = ops.apply_linear(
            &self.weights.output_linear_weight,
            scratch.joined.as_slice(),
            Some(self.weights.output_linear_bias.as_slice()),
        )?;
        scratch.logits = logits;
        Ok(())
    }

    /// What the joiner makes of a frame and a predictor state.
    pub open spec fn spec_logits(
        self,
        m: FloatModel,
        encoder_frame: Seq<u32>,
        decoder_state: Seq<u32>,
    ) -> Result<Seq<u32>, Seq<char>> {
        let weights = self.spec_weights();
        match projected(
            m,
            weights.encoder_proj_weight,
            weights.encoder_proj_bias@,
            encoder_frame,
        ) {
            Err(reason) => Err(reason),
            Ok(enc) => match projected(
                m,
                weights.decoder_proj_weight,
                weights.decoder_proj_bias@,
                decoder_state,
            ) {
                Err(reason) => Err(reason),
                Ok(dec) => joined_logits(
                    m,
                    weights,
                    zero_seq(weights.encoder_proj_weight.output_dim as nat),
                    enc,
                    dec,
                ),
            },
        }
    }

    /// The logits of a frame and a predictor state.
    pub fn logits<O: FloatOps>(
        &self,
        ops: &O,
        encoder_frame: &[u32],
        decoder_state: &[u32],
    ) -> (result: Result<Vec<u32>, String>)
        ensures
            float_ops::functional(ops) ==> float_ops::result_view(result) == self.spec_logits(
                float_ops::model(ops),
                encoder_frame@,
                decoder_state@,
            ),
    {
        let mut scratch = self.scratch();
        self.project_encoder_frame(ops, encoder_frame, &mut scratch)?;
        self.project_decoder_state(ops, decoder_state, &mut scratch)?;
        self.logits_from_projected(ops, &mut scratch)?;
        Ok(scratch.logits)
    }

    /// Why a token has no probability.
    pub open spec fn probability_refusal(
        scratch: XasrJoinerScratch,
        token: u32,
    ) -> Option<Seq<char>> {
        if token >= scratch.logits@.len() {
            Some(
                "xasr joiner token id "@ + decimal(token as nat) + " out of range for "@ + decimal(
                    scratch.logits@.len(),
                ) + " logits"@,
            )
        } else {
            None
        }
    }

    /// The probability of a token by the logits in the scratch: its normalised
    /// exponential.
    pub fn token_probability<O: FloatOps>(
        &self,
        ops: &O,
        scratch: &XasrJoinerScratch,
        token: u32,
    ) -> (result: Result<u32, String>)
        ensures
            text_outcome(result, Self::probability_refusal(*scratch, token)),
            result is Ok && float_ops::functional(ops) ==> result->Ok_0 == (
            float_ops::model(ops).div)(
                exponentials(float_ops::model(ops), scratch.logits@)[token as int],
                normalizer(float_ops::model(ops), scratch.logits@),
            ),
    {
        if token as usize >= scratch.logits.len() {
            let mut reason = text::copy_text("xasr joiner token id ");
            text::push_number(&mut reason, token as usize);
            reason.append(" out of range for ");
            text::push_number(&mut reason, scratch.logits.len());
            reason.append(" logits");
            return Err(reason);
        }
        let (shifted, sum) = exponentials_and_sum(ops, scratch.logits.as_slice());
        Ok(ops.div(shifted[token as usize], sum))
    }
}

} // verus!
