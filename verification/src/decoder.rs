//! The predictor: embeds the last tokens and convolves them.

use vstd::prelude::*;
use vstd::string::StringExecFns;
use crate::bits::ZERO_BITS;
use crate::encoder_weights::{NamedTensor, StoredLinear};
use crate::float_ops;
use crate::float_ops::{FloatModel, FloatOps};
use crate::rows::lemma_part_bounds;
use crate::sums::{dot, dot_from};
use crate::text;
use crate::text::decimal;

verus! {

/// Weights of the predictor.
#[derive(Clone, Debug)]
pub struct XasrDecoderWeights {
    /// One row for each token.
    pub embedding: StoredLinear,
    pub conv_weight: NamedTensor,
    pub groups: usize,
}

/// The predictor of a model.
#[derive(Clone, Debug)]
pub struct XasrDecoder {
    weights: XasrDecoderWeights,
    context_size: usize,
    blank_id: u32,
}

/// The outcome of a computation: the given failure, or success.
pub open spec fn text_outcome<T>(result: Result<T, String>, refusal: Option<Seq<char>>) -> bool {
    match refusal {
        Some(reason) => result is Err && result->Err_0@ == reason,
        None => result is Ok,
    }
}

/// Why a grouped convolution is refused.
pub open spec fn conv_refusal(
    input_len: int,
    channels: usize,
    context_size: usize,
    weight_len: int,
    groups: usize,
) -> Option<Seq<char>> {
    let per_group = (channels / groups) as int;
    if groups == 0 || channels % groups != 0 {
        Some(
            "xasr decoder channels "@ + decimal(channels as nat) + " must be divisible by groups "@
                + decimal(groups as nat),
        )
    } else if channels * context_size > usize::MAX {
        Some("xasr decoder input shape overflow"@)
    } else if input_len != channels * context_size {
        Some(
            "xasr decoder embedded input has "@ + decimal(input_len as nat) + " values, expected "@
                + decimal((channels * context_size) as nat),
        )
    } else if channels * per_group > usize::MAX || channels * per_group * context_size
        > usize::MAX {
        Some("xasr decoder conv weight shape overflow"@)
    } else if weight_len != channels * per_group * context_size {
        Some(
            "xasr decoder conv has "@ + decimal(weight_len as nat) + " values, expected "@ + decimal(
                (channels * per_group * context_size) as nat,
            ),
        )
    } else {
        None
    }
}

/// Output channel `out` of a grouped convolution over all of its context: the
/// channels of its group, each with all of its times, against as many weights.
pub open spec fn conv_channel(
    m: FloatModel,
    input: Seq<u32>,
    channels: int,
    context_size: int,
    weight: Seq<u32>,
    groups: int,
    out: int,
) -> u32 {
    let per_group = channels / groups;
    dot(
        m,
        ZERO_BITS,
        input,
        (out / per_group) * per_group * context_size,
        weight,
        out * per_group * context_size,
        per_group * context_size,
    )
}

fn expected_error(head: &str, count: usize, expected: usize) -> (reason: String)
    ensures
        reason@ == head@ + decimal(count as nat) + " values, expected "@ + decimal(
            expected as nat,
        ),
{
    let mut reason = text::copy_text(head);
    text::push_number(&mut reason, count);
    reason.append(" values, expected ");
    text::push_number(&mut reason, expected);
    reason
}

/// A channel of a group and its weights lie within their lists.
proof fn lemma_group_bounds(channels: int, groups: int, context_size: int, out: int)
    requires
        groups > 0,
        channels % groups == 0,
        0 <= out < channels,
        0 <= context_size,
    ensures
        ({
            let per_group = channels / groups;
            &&& per_group > 0
            &&& 0 <= (out / per_group) * per_group <= out
            &&& (out / per_group) * per_group + per_group <= channels
            &&& 0 <= (out / per_group) * per_group * context_size
            &&& (out / per_group) * per_group * context_size + per_group * context_size
                <= channels * context_size
            &&& 0 <= out * per_group * context_size
            &&& out * per_group * context_size + per_group * context_size <= channels * per_group
                * context_size
            &&& per_group * context_size <= channels * context_size
            &&& out * per_group <= channels * per_group
        }),
{
    let per_group = channels / groups;
    vstd::arithmetic::div_mod::lemma_fundamental_div_mod(channels, groups);
    assert(channels == groups * per_group);
    assert(per_group > 0) by (nonlinear_arith)
        requires
            channels == groups * per_group,
            channels > 0,
            groups > 0,
    ;
    let g = out / per_group;
    vstd::arithmetic::div_mod::lemma_fundamental_div_mod(out, per_group);
    assert(0 <= g * per_group <= out) by (nonlinear_arith)
        requires
            out == per_group * g + out % per_group,
            0 <= out % per_group < per_group,
            0 <= out,
            g == out / per_group,
            per_group > 0,
    ;
    assert(g < groups) by (nonlinear_arith)
        requires
            g * per_group <= out < groups * per_group,
            per_group > 0,
    ;
    assert(g * per_group + per_group <= channels) by (nonlinear_arith)
        requires
            g + 1 <= groups,
            channels == groups * per_group,
            per_group > 0,
    ;
    let base = g * per_group;
    assert(0 <= base * context_size && base * context_size + per_group * context_size <= channels
        * context_size && per_group * context_size <= channels * context_size) by (nonlinear_arith)
        requires
            0 <= base,
            base + per_group <= channels,
            0 <= context_size,
            per_group > 0,
    ;
    assert(0 <= out * per_group && out * per_group + per_group <= channels * per_group)
        by (nonlinear_arith)
        requires
            0 <= out,
            out + 1 <= channels,
            per_group > 0,
    ;
    let weight_base = out * per_group;
    let weight_count = channels * per_group;
    assert(0 <= weight_base * context_size && weight_base * context_size + per_group * context_size
        <= weight_count * context_size) by (nonlinear_arith)
        requires
            0 <= weight_base,
            weight_base + per_group <= weight_count,
            0 <= context_size,
    ;
}

/// Convolves channel-major input over its whole context, group by group.
pub fn grouped_context_conv1d<O: FloatOps>(
    ops: &O,
    embedded_channel_major: &[u32],
    channels: usize,
    context_size: usize,
    weight_output_major: &[u32],
    groups: usize,
) -> (result: Result<Vec<u32>, String>)
    ensures
        text_outcome(
            result,
            conv_refusal(
                embedded_channel_major@.len() as int,
                channels,
                context_size,
                weight_output_major@.len() as int,
                groups,
            ),
        ),
        result is Ok ==> result->Ok_0@.len() == channels,
        result is Ok && float_ops::functional(ops) ==> result->Ok_0@ == Seq::new(
            channels as nat,
            |out: int|
                conv_channel(
                    float_ops::model(ops),
                    embedded_channel_major@,
                    channels as int,
                    context_size as int,
                    weight_output_major@,
                    groups as int,
                    out,
                ),
        ),
{
    if groups == 0 || channels % groups != 0 {
        let mut reason = text::copy_text("xasr decoder channels ");
        text::push_number(&mut reason, channels);
        reason.append(" must be divisible by groups ");
        text::push_number(&mut reason, groups);
        return Err(reason);
    }
    let per_group = channels / groups;
    let expected_input = match channels.checked_mul(context_size) {
        Some(value) => value,
        None => return Err(text::copy_text("xasr decoder input shape overflow")),
    };
    if embedded_channel_major.len() != expected_input {
        return Err(
            expected_error(
                "xasr decoder embedded input has ",
                embedded_channel_major.len(),
                expected_input,
            ),
        );
    }
    let rows = match channels.checked_mul(per_group) {
        Some(value) => value,
        None => return Err(text::copy_text("xasr decoder conv weight shape overflow")),
    };
    let expected_weight = match rows.checked_mul(context_size) {
        Some(value) => value,
        None => return Err(text::copy_text("xasr decoder conv weight shape overflow")),
    };
    if weight_output_major.len() != expected_weight {
        return Err(
            expected_error("xasr decoder conv has ", weight_output_major.len(), expected_weight),
        );
    }
    let mut output: Vec<u32> = Vec::new();
    let mut out: usize = 0;
    while out < channels
        invariant
            out <= channels,
            groups > 0,
            channels % groups == 0,
            per_group == channels / groups,
            embedded_channel_major@.len() == channels * context_size,
            weight_output_major@.len() == channels * per_group * context_size,
            channels * context_size <= usize::MAX,
            channels * per_group <= usize::MAX,
            channels * per_group * context_size <= usize::MAX,
            output@.len() == out,
            float_ops::functional(ops) ==> forall|o: int|
                0 <= o < out ==> #[trigger] output@[o] == conv_channel(
                    float_ops::model(ops),
                    embedded_channel_major@,
                    channels as int,
                    context_size as int,
                    weight_output_major@,
                    groups as int,
                    o,
                ),
        decreases channels - out,
    {
        proof {
            lemma_group_bounds(channels as int, groups as int, context_size as int, out as int);
        }
        let group = out / per_group;
        let input_base = group * per_group * context_size;
        let weight_base = out * per_group * context_size;
        let count = per_group * context_size;
        let sum = dot_from(
            ops,
            ZERO_BITS,
            embedded_channel_major,
            input_base,
            weight_output_major,
            weight_base,
            count,
        );
        output.push(sum);
        out = out + 1;
    }
    proof {
        if float_ops::functional(ops) {
            assert(output@ =~= Seq::new(
                channels as nat,
                |o: int|
                    conv_channel(
                        float_ops::model(ops),
                        embedded_channel_major@,
                        channels as int,
                        context_size as int,
                        weight_output_major@,
                        groups as int,
                        o,
                    ),
            ));
        }
    }
    Ok(output)
}

/// The embeddings of a context, channel by channel: element
/// `channel * context_size + time` is that of the token at `time`.
pub open spec fn embedded(table: Seq<u32>, dim: int, context: Seq<u32>) -> Seq<u32> {
    Seq::new(
        (dim * context.len()) as nat,
        |i: int| table[context[i % context.len() as int] * dim + i / context.len() as int],
    )
}

/// Why a context is refused.
pub open spec fn context_refusal(context: Seq<u32>, vocab: usize, n: int) -> Option<Seq<char>>
    decreases n,
{
    if n <= 0 {
        None
    } else if context_refusal(context, vocab, n - 1) is Some {
        context_refusal(context, vocab, n - 1)
    } else if context[n - 1] >= vocab {
        Some(
            "xasr decoder token id "@ + decimal(context[n - 1] as nat) + " out of range for vocab "@
                + decimal(vocab as nat),
        )
    } else {
        None
    }
}

proof fn lemma_context_refusal_monotone(context: Seq<u32>, vocab: usize, n: int, longer: int)
    requires
        0 <= n <= longer,
        context_refusal(context, vocab, n) is Some,
    ensures
        context_refusal(context, vocab, longer) == context_refusal(context, vocab, n),
    decreases longer,
{
    if n < longer {
        lemma_context_refusal_monotone(context, vocab, n, longer - 1);
    }
}

pub proof fn lemma_context_accepted(context: Seq<u32>, vocab: usize, n: int, t: int)
    requires
        0 <= t < n,
        context_refusal(context, vocab, n) is None,
    ensures
        context[t] < vocab,
    decreases n,
{
    if t < n - 1 {
        lemma_context_accepted(context, vocab, n - 1, t);
    }
}

impl XasrDecoder {
    pub closed spec fn spec_weights(self) -> XasrDecoderWeights {
        self.weights
    }

    pub closed spec fn spec_context_size(self) -> usize {
        self.context_size
    }

    pub closed spec fn spec_blank_id(self) -> u32 {
        self.blank_id
    }

    /// The embedding table has a row for each token, and its size and that of a
    /// context fit.
    pub open spec fn complete(self) -> bool {
        let table = self.spec_weights().embedding;
        &&& table.values@.len() >= table.output_dim * table.input_dim
        &&& table.input_dim * self.spec_context_size() <= usize::MAX
    }

    /// A predictor.
    pub fn new(weights: XasrDecoderWeights, context_size: usize, blank_id: u32) -> (decoder: Self)
        ensures
            decoder.spec_weights() == weights,
            decoder.spec_context_size() == context_size,
            decoder.spec_blank_id() == blank_id,
    {
        XasrDecoder { weights, context_size, blank_id }
    }

    /// The context before any token: blanks.
    pub open spec fn spec_initial_context(self) -> Seq<u32> {
        Seq::new(self.spec_context_size() as nat, |i: int| self.spec_blank_id())
    }

    /// The context before any token: blanks.
    pub fn initial_context(&self) -> (context: Vec<u32>)
        ensures
            context@ == self.spec_initial_context(),
    {
        let context = vec![self.blank_id; self.context_size];
        assert(context@ =~= self.spec_initial_context());
        context
    }

    /// Why a context cannot be decoded.
    pub open spec fn decode_refusal(self, context: Seq<u32>) -> Option<Seq<char>> {
        let weights = self.spec_weights();
        let size = self.spec_context_size();
        let tokens = context_refusal(
            context,
            weights.embedding.output_dim,
            context.len() as int,
        );
        if context.len() != size {
            Some(
                "xasr decoder expected context_size "@ + decimal(size as nat) + ", got "@ + decimal(
                    context.len(),
                ),
            )
        } else if tokens is Some {
            tokens
        } else {
            conv_refusal(
                weights.embedding.input_dim * size,
                weights.embedding.input_dim,
                size,
                weights.conv_weight.values@.len() as int,
                weights.groups,
            )
        }
    }

    /// The state of the predictor for a context: its embeddings, convolved,
    /// without what is negative.
    pub open spec fn decoded(self, m: FloatModel, context: Seq<u32>) -> Seq<u32> {
        let weights = self.spec_weights();
        let dim = weights.embedding.input_dim;
        Seq::new(
            dim as nat,
            |out: int|
                (m.max)(
                    conv_channel(
                        m,
                        embedded(weights.embedding.values@, dim as int, context),
                        dim as int,
                        self.spec_context_size() as int,
                        weights.conv_weight.values@,
                        weights.groups as int,
                        out,
                    ),
                    ZERO_BITS,
                ),
        )
    }

    /// The state of the predictor for a context.
    #[verifier::spinoff_prover]
    pub fn decode_context<O: FloatOps>(&self, ops: &O, context: &[u32]) -> (result: Result<
        Vec<u32>,
        String,
    >)
        requires
            self.complete(),
        ensures
            text_outcome(result, self.decode_refusal(context@)),
            result is Ok ==> result->Ok_0@.len() == self.spec_weights().embedding.input_dim,
            result is Ok && float_ops::functional(ops) ==> result->Ok_0@ == self.decoded(
                float_ops::model(ops),
                context@,
            ),
    {
        if context.len() != self.context_size {
            let mut reason = text::copy_text("xasr decoder expected context_size ");
            text::push_number(&mut reason, self.context_size);
            reason.append(", got ");
            text::push_number(&mut reason, context.len());
            return Err(reason);
        }
        let embedded_values = self.embed_context(context)?;
        let convolved = grouped_context_conv1d(
            ops,
            embedded_values.as_slice(),
            self.weights.embedding.input_dim,
            self.context_size,
            self.weights.conv_weight.values.as_slice(),
            self.weights.groups,
        )?;
        let mut output: Vec<u32> = Vec::new();
        let mut i: usize = 0;
        while i < convolved.len()
            invariant
                i <= convolved@.len(),
                output@.len() == i,
                float_ops::functional(ops) ==> forall|o: int|
                    0 <= o < i ==> #[trigger] output@[o] == (float_ops::model(ops).max)(
                        convolved@[o],
                        ZERO_BITS,
                    ),
            decreases convolved@.len() - i,
        {
            output.push(ops.max(convolved[i], ZERO_BITS));
            i = i + 1;
        }
        proof {
            if float_ops::functional(ops) {
                assert(output@ =~= self.decoded(float_ops::model(ops), context@));
            }
        }
        Ok(output)
    }

    fn embed_context(&self, context: &[u32]) -> (result: Result<Vec<u32>, String>)
        requires
            self.complete(),
            context@.len() == self.spec_context_size(),
        ensures
            text_outcome(
                result,
                context_refusal(
                    context@,
                    self.spec_weights().embedding.output_dim,
                    context@.len() as int,
                ),
            ),
            result is Ok ==> result->Ok_0@ == embedded(
                self.spec_weights().embedding.values@,
                self.spec_weights().embedding.input_dim as int,
                context@,
            ),
    {
        let dim = self.weights.embedding.input_dim;
        let vocab = self.weights.embedding.output_dim;
        let size = context.len();
        let mut time: usize = 0;
        while time < size
            invariant
                time <= size == context@.len(),
                vocab == self.spec_weights().embedding.output_dim,
                context_refusal(context@, vocab, time as int) is None,
            decreases size - time,
        {
            let token_id = context[time];
            if token_id as usize >= vocab {
                proof {
                    lemma_context_refusal_monotone(context@, vocab, time + 1, size as int);
                }
                let mut reason = text::copy_text("xasr decoder token id ");
                text::push_number(&mut reason, token_id as usize);
                reason.append(" out of range for vocab ");
                text::push_number(&mut reason, vocab);
                return Err(reason);
            }
            time = time + 1;
        }
        let table = &self.weights.embedding.values;
        assert(table.len() == table@.len());
        let mut output: Vec<u32> = Vec::new();
        let mut channel: usize = 0;
        while channel < dim
            invariant
                channel <= dim,
                dim == self.spec_weights().embedding.input_dim,
                vocab == self.spec_weights().embedding.output_dim,
                size == context@.len(),
                table@ == self.spec_weights().embedding.values@,
                table@.len() >= vocab * dim,
                table@.len() <= usize::MAX,
                context_refusal(context@, vocab, size as int) is None,
                output@.len() == channel * size,
                forall|i: int|
                    0 <= i < output@.len() ==> #[trigger] output@[i]
                        == table@[context@[i % size as int] * dim + i / size as int],
            decreases dim - channel,
        {
            let mut t: usize = 0;
            while t < size
                invariant
                    t <= size,
                    channel < dim,
                    size == context@.len(),
                    table@.len() >= vocab * dim,
                    table@.len() <= usize::MAX,
                    context_refusal(context@, vocab, size as int) is None,
                    output@.len() == channel * size + t,
                    forall|i: int|
                        0 <= i < output@.len() ==> #[trigger] output@[i]
                            == table@[context@[i % size as int] * dim + i / size as int],
                decreases size - t,
            {
                proof {
                    lemma_context_accepted(context@, vocab, size as int, t as int);
                    lemma_part_bounds(context@[t as int] as int, vocab as int, dim as int);
                    let i = channel * size + t;
                    vstd::arithmetic::div_mod::lemma_fundamental_div_mod_converse(
                        i,
                        size as int,
                        channel as int,
                        t as int,
                    );
                }
                let token = context[t] as usize;
                output.push(table[token * dim + channel]);
                t = t + 1;
            }
            proof {
                assert(channel * size + size == (channel + 1) * size) by (nonlinear_arith);
            }
            channel = channel + 1;
        }
        assert(output@ =~= embedded(table@, dim as int, context@));
        Ok(output)
    }
}

} // verus!
