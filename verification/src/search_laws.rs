//! What the predictor, the joiner and the search are for.

use vstd::prelude::*;
use crate::bits::{finite, nan, total_order_key};
use crate::decoder::{embedded, XasrDecoder};
use crate::float_ops::FloatModel;
use crate::greedy::{
    host_model, is_last_greatest, searched, searched_frame, GreedyModel, SearchState,
};
use crate::joiner::{joined_state, XasrJoiner};
use crate::rows::{part_of, zero_seq};
use crate::sum_laws::{
    gives_the_greater, is_share, law_a_normalised_row_is_made_of_shares,
    law_a_sum_of_products_adds_every_product, products, summed,
};

verus! {

/// Entry `out` of the predictor state is what is not negative of the sum, over every channel
/// of its group and every token of the context, of the weight for that channel and place
/// times that entry of the embedding of the token.
pub proof fn law_the_predictor_weighs_the_embeddings_of_its_context(
    decoder: XasrDecoder,
    m: FloatModel,
    context: Seq<u32>,
    out: int,
)
    requires
        decoder.complete(),
        decoder.decode_refusal(context) is None,
        0 <= out < decoder.spec_weights().embedding.input_dim,
        context.len() > 0,
    ensures
        ({
            let weights = decoder.spec_weights();
            let table = weights.embedding.values@;
            let dim = weights.embedding.input_dim as int;
            let size = context.len() as int;
            let width = dim / weights.groups as int;
            let first = (out / width) * width;
            let seen = Seq::new(
                (width * size) as nat,
                |k: int| table[context[k % size] * dim + first + k / size],
            );
            let kernel = weights.conv_weight.values@.subrange(
                out * (width * size),
                (out + 1) * (width * size),
            );
            &&& decoder.decoded(m, context).len() == dim
            &&& decoder.decoded(m, context)[out] == (m.max)(
                summed(m, 0, products(m, seen, kernel)),
                0,
            )
        }),
{
    let weights = decoder.spec_weights();
    let table = weights.embedding.values@;
    let dim = weights.embedding.input_dim as int;
    let size = context.len() as int;
    let groups = weights.groups as int;
    let width = dim / groups;
    let first = (out / width) * width;
    let n = width * size;
    let input = embedded(table, dim, context);
    let values = weights.conv_weight.values@;
    vstd::arithmetic::div_mod::lemma_fundamental_div_mod(dim, groups);
    assert(dim == groups * width);
    assert(width > 0) by (nonlinear_arith)
        requires
            dim == groups * width,
            dim > 0,
            groups > 0,
    ;
    vstd::arithmetic::div_mod::lemma_fundamental_div_mod(out, width);
    let group = out / width;
    assert(0 <= group < groups) by (nonlinear_arith)
        requires
            0 <= out < groups * width,
            out == width * group + out % width,
            0 <= out % width < width,
    ;
    assert(first * size == (out / width) * width * size);
    assert(first + width <= dim && 0 <= first) by (nonlinear_arith)
        requires
            first == group * width,
            0 <= group < groups,
            dim == groups * width,
            0 < width,
    ;
    assert(first * size + n == (first + width) * size && (first + width) * size <= dim * size
        && 0 <= first * size && 0 <= n) by (nonlinear_arith)
        requires
            n == width * size,
            first + width <= dim,
            0 <= first,
            0 < size,
            0 < width,
    ;
    assert(out * width * size == out * n && 0 <= out * n && out * n + n == (out + 1) * n && (out
        + 1) * n <= dim * n && dim * n == dim * width * size) by (nonlinear_arith)
        requires
            n == width * size,
            0 <= n,
            0 <= out < dim,
    ;
    law_a_sum_of_products_adds_every_product(m, 0, input, first * size, values, out * n, n);
    let seen = Seq::new(n as nat, |k: int| table[context[k % size] * dim + first + k / size]);
    assert(input.subrange(first * size, first * size + n) =~= seen) by {
        assert forall|k: int| 0 <= k < n implies input[first * size + k] == seen[k] by {
            vstd::arithmetic::div_mod::lemma_mod_multiples_vanish(first, k, size);
            vstd::arithmetic::div_mod::lemma_hoist_over_denominator(k, first, size as nat);
            assert(size * first + k == first * size + k) by (nonlinear_arith);
            assert(k / size + first == (k + first * size) / size);
        }
    }
}

/// The logits of a frame and a predictor state are the output layer of the hyperbolic
/// tangents of the sums, place by place, of the frame through the encoder projection and the
/// state through the decoder projection.
pub proof fn law_the_joiner_adds_both_sides(
    joiner: XasrJoiner,
    m: FloatModel,
    frame: Seq<u32>,
    state: Seq<u32>,
    enc: Seq<u32>,
    dec: Seq<u32>,
)
    requires
        (m.apply_linear)(
            joiner.spec_weights().encoder_proj_weight,
            frame,
            Some(joiner.spec_weights().encoder_proj_bias@),
        ) == Ok::<Seq<u32>, Seq<char>>(enc),
        (m.apply_linear)(
            joiner.spec_weights().decoder_proj_weight,
            state,
            Some(joiner.spec_weights().decoder_proj_bias@),
        ) == Ok::<Seq<u32>, Seq<char>>(dec),
        enc.len() == dec.len(),
        enc.len() == joiner.spec_weights().encoder_proj_weight.output_dim,
    ensures
        joiner.spec_logits(m, frame, state) == (m.apply_linear)(
            joiner.spec_weights().output_linear_weight,
            Seq::new(enc.len(), |i: int| (m.tanh)((m.add)(enc[i], dec[i]))),
            Some(joiner.spec_weights().output_linear_bias@),
        ),
{
    let width = joiner.spec_weights().encoder_proj_weight.output_dim as nat;
    assert(joined_state(m, zero_seq(width), enc, dec) =~= Seq::new(
        enc.len(),
        |i: int| (m.tanh)((m.add)(enc[i], dec[i])),
    ));
}

/// On the host the best token is one whose logit no other finite logit exceeds, the last of
/// several; and its probability is its share of the exponentials of all logits.
pub proof fn law_the_best_token_has_the_greatest_logit(
    decoder: XasrDecoder,
    joiner: XasrJoiner,
    m: FloatModel,
    frame: Seq<u32>,
    context: Seq<u32>,
    logits: Seq<u32>,
    other: int,
)
    requires
        joiner.spec_logits(m, frame, decoder.decoded(m, context)) == Ok::<Seq<u32>, Seq<char>>(
            logits,
        ),
        logits.len() <= u32::MAX,
        0 <= other < logits.len(),
        finite(logits[other]),
    ensures
        ({
            let best = (host_model(m, decoder, joiner).best)(frame, context);
            &&& best is Ok
            &&& best->Ok_0 < logits.len()
            &&& finite(logits[best->Ok_0 as int])
            &&& total_order_key(logits[other]) <= total_order_key(logits[best->Ok_0 as int])
            &&& total_order_key(logits[other]) == total_order_key(logits[best->Ok_0 as int])
                ==> other <= best->Ok_0
        }),
{
    lemma_some_last_greatest(logits, logits.len() as int, other);
}

proof fn lemma_some_last_greatest(logits: Seq<u32>, n: int, other: int)
    requires
        0 <= other < n <= logits.len(),
        finite(logits[other]),
    ensures
        exists|index: int| #[trigger] is_last_greatest(logits.take(n), index),
        n == logits.len() ==> exists|index: int| is_last_greatest(logits, index),
    decreases n,
{
    let part = logits.take(n);
    if exists|j: int| 0 <= j < n - 1 && finite(#[trigger] logits[j]) {
        let j = choose|j: int| 0 <= j < n - 1 && finite(#[trigger] logits[j]);
        lemma_some_last_greatest(logits, n - 1, j);
        let earlier = logits.take(n - 1);
        let before = choose|index: int| is_last_greatest(earlier, index);
        assert(forall|k: int| 0 <= k < n - 1 ==> #[trigger] part[k] == earlier[k]);
        if finite(logits[n - 1]) && total_order_key(logits[n - 1]) >= total_order_key(
            logits[before],
        ) {
            assert(is_last_greatest(part, n - 1));
        } else {
            assert(is_last_greatest(part, before));
        }
    } else {
        assert(other == n - 1);
        assert(is_last_greatest(part, n - 1));
    }
    if n == logits.len() {
        assert(part =~= logits);
    }
}

/// The probability of a token is its share of the exponentials of all logits.
pub proof fn law_the_probability_of_a_token_is_its_share(
    decoder: XasrDecoder,
    joiner: XasrJoiner,
    m: FloatModel,
    frame: Seq<u32>,
    context: Seq<u32>,
    logits: Seq<u32>,
    token: u32,
)
    requires
        gives_the_greater(m),
        joiner.spec_logits(m, frame, decoder.decoded(m, context)) == Ok::<Seq<u32>, Seq<char>>(
            logits,
        ),
        forall|i: int| 0 <= i < logits.len() ==> !nan(#[trigger] logits[i]),
        token < logits.len(),
    ensures
        ({
            let found = (host_model(m, decoder, joiner).probability)(frame, context, token);
            &&& found is Ok
            &&& exists|top: u32| #[trigger] is_share(m, logits, top, token as int, found->Ok_0)
        }),
{
    let top = law_a_normalised_row_is_made_of_shares(m, logits, token as int);
    assert(is_share(
        m,
        logits,
        top,
        token as int,
        (host_model(m, decoder, joiner).probability)(frame, context, token)->Ok_0,
    ));
}

/// A context after further tokens: as many as it holds of the tokens that came last.
pub open spec fn recent(context: Seq<u32>, tokens: Seq<u32>) -> Seq<u32> {
    (context + tokens).skip(tokens.len() as int)
}

/// The tokens of one frame: each was the best for the frame and the context of the tokens
/// before it, and none was the blank; they are no more than the limit, and fewer only where
/// the best that came next was the blank.
pub open spec fn frame_searched(
    model: GreedyModel,
    frame: Seq<u32>,
    index: int,
    blank: u32,
    limit: int,
    context: Seq<u32>,
    state: SearchState,
    from: int,
    to: int,
) -> bool {
    &&& 0 <= from <= to <= state.tokens.len()
    &&& to - from <= limit
    &&& forall|j: int|
        from <= j < to ==> {
            let before = recent(context, state.tokens.take(j));
            let token = #[trigger] state.tokens[j];
            &&& token != blank
            &&& (model.best)(frame, before) == Ok::<u32, Seq<char>>(token)
            &&& (model.probability)(frame, before, token) == Ok::<u32, Seq<char>>(
                state.probabilities[j],
            )
            &&& state.frames[j] == index
        }
    &&& to - from < limit ==> (model.best)(frame, recent(context, state.tokens.take(to)))
        == Ok::<u32, Seq<char>>(blank)
}

proof fn lemma_one_more(context: Seq<u32>, tokens: Seq<u32>, token: u32)
    requires
        context.len() > 0,
    ensures
        recent(context, tokens.push(token)) == recent(context, tokens).skip(1).push(token),
{
    assert(recent(context, tokens.push(token)) =~= recent(context, tokens).skip(1).push(token));
}

/// `later` begins with what `earlier` found.
spec fn goes_on(earlier: SearchState, later: SearchState) -> bool {
    &&& earlier.tokens.is_prefix_of(later.tokens)
    &&& earlier.frames.is_prefix_of(later.frames)
    &&& earlier.probabilities.is_prefix_of(later.probabilities)
}

spec fn in_step(context: Seq<u32>, state: SearchState) -> bool {
    &&& state.frames.len() == state.tokens.len()
    &&& state.probabilities.len() == state.tokens.len()
    &&& state.context == recent(context, state.tokens)
}

proof fn lemma_frame(
    model: GreedyModel,
    frame: Seq<u32>,
    index: usize,
    blank: u32,
    context: Seq<u32>,
    state: SearchState,
    n: nat,
)
    requires
        context.len() > 0,
        in_step(context, state),
        searched_frame(model, frame, index, blank, state, n) is Ok,
    ensures
        ({
            let after = searched_frame(model, frame, index, blank, state, n)->Ok_0;
            &&& in_step(context, after)
            &&& goes_on(state, after)
            &&& frame_searched(
                model,
                frame,
                index as int,
                blank,
                n as int,
                context,
                after,
                state.tokens.len() as int,
                after.tokens.len() as int,
            )
        }),
    decreases n,
{
    let after = searched_frame(model, frame, index, blank, state, n)->Ok_0;
    assert(state.tokens.take(state.tokens.len() as int) =~= state.tokens);
    if n > 0 {
        let best = (model.best)(frame, state.context);
        if best->Ok_0 != blank {
            let token = best->Ok_0;
            let probability = (model.probability)(frame, state.context, token)->Ok_0;
            let next = state.taking(token, index, probability);
            lemma_one_more(context, state.tokens, token);
            lemma_frame(model, frame, index, blank, context, next, (n - 1) as nat);
            let k = state.tokens.len() as int;
            assert(next.tokens[k] == token && next.frames[k] == index && next.probabilities[k]
                == probability);
            assert(after.tokens[k] == token && after.frames[k] == index
                && after.probabilities[k] == probability);
            assert(after.tokens.take(k) =~= state.tokens);
            assert(state.tokens.is_prefix_of(next.tokens));
            assert(state.frames.is_prefix_of(next.frames));
            assert(state.probabilities.is_prefix_of(next.probabilities));
        }
    }
}

/// A search over frames splits its tokens into those of the frames, one frame after the
/// other, and each frame is searched to its end; the context that is left holds the tokens
/// found last.
pub open spec fn all_searched(
    model: GreedyModel,
    frames: Seq<u32>,
    dim: int,
    offset: int,
    blank: u32,
    limit: int,
    context: Seq<u32>,
    state: SearchState,
    n: int,
    ends: Seq<int>,
) -> bool {
    &&& ends.len() == n + 1
    &&& ends[0] == 0
    &&& ends[n] == state.tokens.len()
    &&& state.frames.len() == state.tokens.len()
    &&& state.probabilities.len() == state.tokens.len()
    &&& state.context == (context + state.tokens).skip(state.tokens.len() as int)
    &&& forall|t: int|
        0 <= t < n ==> frame_searched(
            model,
            frames.subrange(t * dim, (t + 1) * dim),
            offset + t,
            blank,
            limit,
            context,
            state,
            #[trigger] ends[t],
            ends[t + 1],
        )
}

proof fn lemma_frame_stays(
    model: GreedyModel,
    frame: Seq<u32>,
    index: int,
    blank: u32,
    limit: int,
    context: Seq<u32>,
    state: SearchState,
    later: SearchState,
    from: int,
    to: int,
)
    requires
        frame_searched(model, frame, index, blank, limit, context, state, from, to),
        state.frames.len() == state.tokens.len(),
        state.probabilities.len() == state.tokens.len(),
        goes_on(state, later),
    ensures
        frame_searched(model, frame, index, blank, limit, context, later, from, to),
{
    assert(later.tokens.take(to) =~= state.tokens.take(to));
    assert forall|j: int| from <= j < to implies ({
        let before = recent(context, later.tokens.take(j));
        let token = #[trigger] later.tokens[j];
        &&& token != blank
        &&& (model.best)(frame, before) == Ok::<u32, Seq<char>>(token)
        &&& (model.probability)(frame, before, token) == Ok::<u32, Seq<char>>(
            later.probabilities[j],
        )
        &&& later.frames[j] == index
    }) by {
        assert(later.tokens[j] == state.tokens[j]);
        assert(later.frames[j] == state.frames[j]);
        assert(later.probabilities[j] == state.probabilities[j]);
        assert(later.tokens.take(j) =~= state.tokens.take(j));
    }
}

/// A greedy search takes the best token again and again: at each frame until the blank is the
/// best or the limit is reached, and each time for the context that the tokens so far leave.
pub proof fn law_a_search_takes_the_best_until_the_blank(
    model: GreedyModel,
    frames: Seq<u32>,
    dim: int,
    offset: int,
    blank: u32,
    limit: usize,
    context: Seq<u32>,
    n: int,
) -> (ends: Seq<int>)
    requires
        context.len() > 0,
        0 <= n,
        0 <= offset,
        offset + n <= usize::MAX,
        searched(
            model,
            frames,
            dim,
            offset,
            blank,
            limit,
            SearchState::beginning(context),
            n,
        ) is Ok,
    ensures
        all_searched(
            model,
            frames,
            dim,
            offset,
            blank,
            limit as int,
            context,
            searched(
                model,
                frames,
                dim,
                offset,
                blank,
                limit,
                SearchState::beginning(context),
                n,
            )->Ok_0,
            n,
            ends,
        ),
    decreases n,
{
    let start = SearchState::beginning(context);
    let state = searched(model, frames, dim, offset, blank, limit, start, n)->Ok_0;
    if n == 0 {
        assert((context + start.tokens).skip(0) =~= context);
        seq![0int]
    } else {
        let earlier = law_a_search_takes_the_best_until_the_blank(
            model,
            frames,
            dim,
            offset,
            blank,
            limit,
            context,
            n - 1,
        );
        let before = searched(model, frames, dim, offset, blank, limit, start, n - 1)->Ok_0;
        let frame = part_of(frames, dim, n - 1);
        let index = (offset + n - 1) as usize;
        lemma_frame(model, frame, index, blank, context, before, limit as nat);
        let ends = earlier.push(state.tokens.len() as int);
        assert forall|t: int| 0 <= t < n implies frame_searched(
            model,
            frames.subrange(t * dim, (t + 1) * dim),
            offset + t,
            blank,
            limit as int,
            context,
            state,
            #[trigger] ends[t],
            ends[t + 1],
        ) by {
            if t < n - 1 {
                assert(ends[t] == earlier[t] && ends[t + 1] == earlier[t + 1]);
                lemma_frame_stays(
                    model,
                    frames.subrange(t * dim, (t + 1) * dim),
                    offset + t,
                    blank,
                    limit as int,
                    context,
                    before,
                    state,
                    earlier[t],
                    earlier[t + 1],
                );
            } else {
                assert(ends[t] == before.tokens.len());
            }
        }
        ends
    }
}

} // verus!
