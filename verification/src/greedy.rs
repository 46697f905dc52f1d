//! Greedy transducer search: at each frame, tokens are taken until a blank.

use vstd::prelude::*;
use vstd::string::StringExecFns;
use crate::bits;
use crate::decoder::{text_outcome, XasrDecoder};
use crate::float_ops;
use crate::float_ops::{FloatModel, FloatOps};
use crate::joiner::{
    joined_logits, joined_state, projected, XasrJoiner, XasrJoinerScratch, XasrJoinerWeights,
};
use crate::rows::{lemma_part_bounds, part_of, zero_seq};
use crate::search_trace::{
    lemma_replayed_push, replayed, stepped, BackendCall, CallRecord, SearchPhase, SearchRun,
    SearchTask,
};
use crate::softmax::{exponentials, normalizer};
use crate::text;
use crate::text::decimal;

verus! {

/// Tokens that one frame may give when no limit is set.
pub const DEFAULT_MAX_SYMBOLS_PER_FRAME: usize = 8;

/// What a predictor and joiner answer.
pub struct GreedyModel {
    /// Why an encoder frame is not taken in.
    pub frame_refusal: spec_fn(Seq<u32>) -> Option<Seq<char>>,
    /// Why a context is not taken in.
    pub context_refusal: spec_fn(Seq<u32>) -> Option<Seq<char>>,
    /// The best token for a frame and a context.
    pub best: spec_fn(Seq<u32>, Seq<u32>) -> Result<u32, Seq<char>>,
    /// The probability of a token for a frame and a context.
    pub probability: spec_fn(Seq<u32>, Seq<u32>, u32) -> Result<u32, Seq<char>>,
}

impl GreedyModel {
    /// The frame gives nothing but a blank.
    pub open spec fn quiet(self, frame: Seq<u32>, context: Seq<u32>, blank: u32) -> bool {
        &&& (self.frame_refusal)(frame) is None
        &&& (self.context_refusal)(context) is None
        &&& (self.best)(frame, context) == Ok::<u32, Seq<char>>(blank)
    }

    /// The first `n` frames give nothing but blanks.
    pub open spec fn quiet_frames(
        self,
        frames: Seq<u32>,
        dim: int,
        context: Seq<u32>,
        blank: u32,
        n: int,
    ) -> bool {
        forall|t: int|
            0 <= t < n ==> self.quiet(#[trigger] part_of(frames, dim, t), context, blank)
    }
}

/// An answer by its contents.
pub open spec fn answer_view<T>(result: Result<T, String>) -> Result<T, Seq<char>> {
    match result {
        Ok(value) => Ok(value),
        Err(reason) => Err(reason@),
    }
}

/// A list, if there is one, by its contents.
pub open spec fn tokens_view(tokens: Option<&[u32]>) -> Option<Seq<u32>> {
    match tokens {
        Some(list) => Some(list@),
        None => None,
    }
}

/// What the search asks of a predictor and joiner.  A backend that says nothing
/// of its answers is held to nothing but that each call and its answer are on
/// record.  The record exists in proofs alone, and nothing asks for it at run
/// time: a backend that is not verified keeps none, and is taken to keep it.
pub trait XasrGreedyDecodeBackend: Sized {
    /// The record: the calls that have been answered.  Each call adds itself.
    spec fn calls(&self) -> CallRecord;

    /// The answers are functions of what was taken in: those of `model`.
    open spec fn deterministic(&self) -> bool {
        false
    }

    /// The answers of a deterministic backend.
    open spec fn model(&self) -> GreedyModel {
        arbitrary()
    }

    /// The backend may tell beforehand that frames are blank.
    open spec fn speculates(&self) -> bool {
        true
    }

    /// The blank of a backend that tells beforehand.
    open spec fn blank(&self) -> u32 {
        0
    }

    /// This frame has been taken in.
    open spec fn holds_frame(&self, frame: Seq<u32>) -> bool {
        false
    }

    /// This context has been taken in.
    open spec fn holds_context(&self, context: Seq<u32>) -> bool {
        false
    }

    /// The last token was chosen for this frame and this context.
    open spec fn holds_choice(&self, frame: Seq<u32>, context: Seq<u32>) -> bool {
        false
    }

    /// Takes in an encoder frame.
    fn project_encoder_frame(&mut self, frame: &[u32]) -> (result: Result<(), String>)
        ensures
            final(self).calls() == old(self).calls().push(
                (BackendCall::Frame { frame: frame@, answer: answer_view(result) }),
            ),
            final(self).deterministic() == old(self).deterministic(),
            final(self).model() == old(self).model(),
            final(self).speculates() == old(self).speculates(),
            final(self).blank() == old(self).blank(),
            old(self).deterministic() ==> text_outcome(
                result,
                (old(self).model().frame_refusal)(frame@),
            ),
            old(self).deterministic() && result is Ok ==> final(self).holds_frame(frame@),
            old(self).deterministic() ==> forall|context: Seq<u32>|
                old(self).holds_context(context) ==> #[trigger] final(self).holds_context(context),
    ;

    /// Takes in a context of tokens.
    fn project_decoder_context(&mut self, context: &[u32]) -> (result: Result<(), String>)
        ensures
            final(self).calls() == old(self).calls().push(
                (BackendCall::Context { context: context@, answer: answer_view(result) }),
            ),
            final(self).deterministic() == old(self).deterministic(),
            final(self).model() == old(self).model(),
            final(self).speculates() == old(self).speculates(),
            final(self).blank() == old(self).blank(),
            old(self).deterministic() ==> text_outcome(
                result,
                (old(self).model().context_refusal)(context@),
            ),
            old(self).deterministic() && result is Ok ==> final(self).holds_context(context@),
            old(self).deterministic() ==> forall|frame: Seq<u32>|
                old(self).holds_frame(frame) ==> #[trigger] final(self).holds_frame(frame),
    ;

    /// The best token for the frame and context taken in.
    fn next_token(&mut self) -> (result: Result<u32, String>)
        ensures
            final(self).calls() == old(self).calls().push(
                (BackendCall::Next { answer: answer_view(result) }),
            ),
            final(self).deterministic() == old(self).deterministic(),
            final(self).model() == old(self).model(),
            final(self).speculates() == old(self).speculates(),
            final(self).blank() == old(self).blank(),
            old(self).deterministic() ==> forall|frame: Seq<u32>, context: Seq<u32>|
                #![trigger old(self).holds_frame(frame), old(self).holds_context(context)]
                old(self).holds_frame(frame) && old(self).holds_context(context) ==> {
                    &&& final(self).holds_frame(frame)
                    &&& final(self).holds_context(context)
                    &&& match (old(self).model().best)(frame, context) {
                        Ok(token) => {
                            &&& result is Ok
                            &&& result->Ok_0 == token
                            &&& final(self).holds_choice(frame, context)
                        },
                        Err(reason) => result is Err && result->Err_0@ == reason,
                    }
                },
    ;

    /// The probability of a token for the frame and context taken in.
    fn token_probability(&self, token: u32) -> (result: Result<u32, String>)
        ensures
            self.deterministic() ==> forall|frame: Seq<u32>, context: Seq<u32>|
                #[trigger] self.holds_choice(frame, context) ==> match (self.model().probability)(
                    frame,
                    context,
                    token,
                ) {
                    Ok(probability) => result is Ok && result->Ok_0 == probability,
                    Err(reason) => result is Err && result->Err_0@ == reason,
                },
    ;

    /// How many of the frames are known to give nothing but a blank, if the
    /// backend can tell.  A context, where given, is taken in.
    fn speculative_blank_prefix_len(
        &mut self,
        context: Option<&[u32]>,
        encoder_frames: &[u32],
        frame_count: usize,
        encoder_dim: usize,
    ) -> (result: Result<Option<usize>, String>)
        ensures
            final(self).calls() == match result {
                Ok(None) => old(self).calls(),
                Ok(Some(blanks)) => old(self).calls().push(
                    (BackendCall::Speculate {
                        context: tokens_view(context),
                        frames: encoder_frames@,
                        count: frame_count,
                        dim: encoder_dim,
                        answer: Ok(blanks),
                    }),
                ),
                Err(reason) => old(self).calls().push(
                    (BackendCall::Speculate {
                        context: tokens_view(context),
                        frames: encoder_frames@,
                        count: frame_count,
                        dim: encoder_dim,
                        answer: Err(reason@),
                    }),
                ),
            },
            final(self).deterministic() == old(self).deterministic(),
            final(self).model() == old(self).model(),
            final(self).speculates() == old(self).speculates(),
            final(self).blank() == old(self).blank(),
            !old(self).speculates() ==> result == Ok::<Option<usize>, String>(None),
            old(self).deterministic() ==> forall|held: Seq<u32>|
                (match context {
                    Some(given) => {
                        &&& held == given@
                        &&& result->Ok_0 is Some || old(self).holds_context(held)
                    },
                    None => old(self).holds_context(held),
                }) && result is Ok ==> #[trigger] final(self).holds_context(held),
            old(self).deterministic() && result is Ok && result->Ok_0 is Some && result->Ok_0->0
                <= frame_count ==> forall|held: Seq<u32>|
                (match context {
                    Some(given) => held == given@,
                    None => old(self).holds_context(held),
                }) ==> #[trigger] old(self).model().quiet_frames(
                    encoder_frames@,
                    encoder_dim as int,
                    held,
                    old(self).blank(),
                    result->Ok_0->0 as int,
                ),
            old(self).deterministic() && result is Ok && result->Ok_0 is Some && context is Some
                ==> (old(self).model().context_refusal)(context->0@) is None,
    {
        let _unused = (context, encoder_frames, frame_count, encoder_dim);
        Ok(None)
    }
}

/// Only what was taken in differs.
pub open spec fn same_answers<B: XasrGreedyDecodeBackend>(a: B, b: B) -> bool {
    &&& a.deterministic() == b.deterministic()
    &&& a.model() == b.model()
    &&& a.speculates() == b.speculates()
    &&& a.blank() == b.blank()
}

/// `index` is the last among the greatest finite values.
pub open spec fn is_last_greatest(values: Seq<u32>, index: int) -> bool {
    &&& 0 <= index < values.len()
    &&& bits::finite(values[index])
    &&& forall|j: int|
        0 <= j < values.len() && bits::finite(#[trigger] values[j]) ==> bits::total_order_key(
            values[j],
        ) <= bits::total_order_key(values[index])
    &&& forall|j: int|
        index < j < values.len() && bits::finite(#[trigger] values[j]) ==> bits::total_order_key(
            values[j],
        ) < bits::total_order_key(values[index])
}

/// The last among the greatest finite values, if any is finite.
pub fn argmax(values: &[u32]) -> (best: Option<u32>)
    ensures
        match best {
            Some(token) => exists|index: int|
                #[trigger] is_last_greatest(values@, index) && token == index as u32,
            None => forall|j: int| 0 <= j < values@.len() ==> !bits::finite(#[trigger] values@[j]),
        },
{
    let mut best: Option<usize> = None;
    let mut best_key: i64 = 0;
    let mut i: usize = 0;
    while i < values.len()
        invariant
            i <= values@.len(),
            match best {
                Some(index) => {
                    &&& index < i
                    &&& is_last_greatest(values@.take(i as int), index as int)
                    &&& best_key == bits::total_order_key(values@[index as int])
                },
                None => forall|j: int| 0 <= j < i ==> !bits::finite(#[trigger] values@[j]),
            },
        decreases values@.len() - i,
    {
        let value = values[i];
        let ghost now = values@.take(i as int);
        let ghost next = values@.take(i + 1);
        proof {
            assert forall|j: int| 0 <= j < i implies #[trigger] next[j] == now[j] by {}
            assert(next[i as int] == value);
        }
        if bits::is_finite(value) {
            let key = bits::total_order(value);
            let better = match best {
                Some(_) => key >= best_key,
                None => true,
            };
            if better {
                proof {
                    assert(is_last_greatest(next, i as int)) by {
                        assert forall|j: int|
                            0 <= j < next.len() && bits::finite(#[trigger] next[j])
                            implies bits::total_order_key(
                            next[j],
                        ) <= bits::total_order_key(next[i as int]) by {
                            if j < i {
                                assert(next[j] == now[j]);
                                assert(values@[j] == now[j]);
                            }
                        }
                    }
                }
                best = Some(i);
                best_key = key;
            } else {
                proof {
                    let index = best->0 as int;
                    assert(is_last_greatest(next, index)) by {
                        assert forall|j: int|
                            0 <= j < next.len() && bits::finite(#[trigger] next[j])
                            implies bits::total_order_key(
                            next[j],
                        ) <= bits::total_order_key(next[index]) by {
                            if j < i {
                                assert(next[j] == now[j]);
                            }
                        }
                        assert forall|j: int|
                            index < j < next.len() && bits::finite(#[trigger] next[j])
                            implies bits::total_order_key(
                            next[j],
                        ) < bits::total_order_key(next[index]) by {
                            if j < i {
                                assert(next[j] == now[j]);
                            }
                        }
                    }
                }
            }
        } else {
            proof {
                if best is Some {
                    let index = best->0 as int;
                    assert(is_last_greatest(next, index)) by {
                        assert forall|j: int|
                            0 <= j < next.len() && bits::finite(#[trigger] next[j])
                            implies bits::total_order_key(
                            next[j],
                        ) <= bits::total_order_key(next[index]) by {
                            assert(next[j] == now[j]);
                        }
                        assert forall|j: int|
                            index < j < next.len() && bits::finite(#[trigger] next[j])
                            implies bits::total_order_key(
                            next[j],
                        ) < bits::total_order_key(next[index]) by {
                            assert(next[j] == now[j]);
                        }
                    }
                }
            }
        }
        i = i + 1;
    }
    assert(values@.take(i as int) =~= values@);
    match best {
        Some(index) => {
            let ghost position = index as int;
            assert(is_last_greatest(values@, position));
            Some(index as u32)
        },
        None => None,
    }
}

/// The index that `argmax` gives is determined by the values.
pub proof fn law_last_greatest_is_unique(values: Seq<u32>, i: int, j: int)
    requires
        is_last_greatest(values, i),
        is_last_greatest(values, j),
    ensures
        i == j,
{
    if i < j {
        assert(bits::finite(values[j]));
        assert(bits::finite(values[i]));
    } else if j < i {
        assert(bits::finite(values[i]));
        assert(bits::finite(values[j]));
    }
}

/// A context after further tokens: the oldest leave as the new ones come.
pub open spec fn advanced(context: Seq<u32>, tokens: Seq<u32>) -> Seq<u32> {
    (context + tokens).skip(tokens.len() as int)
}

/// Where a search stands.
pub struct SearchState {
    pub context: Seq<u32>,
    pub tokens: Seq<u32>,
    pub frames: Seq<usize>,
    pub probabilities: Seq<u32>,
}

impl SearchState {
    /// Before the first frame.
    pub open spec fn beginning(context: Seq<u32>) -> SearchState {
        SearchState {
            context,
            tokens: Seq::empty(),
            frames: Seq::empty(),
            probabilities: Seq::empty(),
        }
    }

    /// After a further token.
    pub open spec fn taking(self, token: u32, frame: usize, probability: u32) -> SearchState {
        SearchState {
            context: self.context.skip(1).push(token),
            tokens: self.tokens.push(token),
            frames: self.frames.push(frame),
            probabilities: self.probabilities.push(probability),
        }
    }
}

/// Where a search stands after a frame at which it takes up to `n` tokens, or
/// why it fails.
pub open spec fn searched_frame(
    model: GreedyModel,
    frame: Seq<u32>,
    index: usize,
    blank: u32,
    state: SearchState,
    n: nat,
) -> Result<SearchState, Seq<char>>
    decreases n,
{
    if n == 0 {
        Ok(state)
    } else if (model.context_refusal)(state.context) is Some {
        Err((model.context_refusal)(state.context)->0)
    } else {
        match (model.best)(frame, state.context) {
            Err(reason) => Err(reason),
            Ok(token) => if token == blank {
                Ok(state)
            } else {
                match (model.probability)(frame, state.context, token) {
                    Err(reason) => Err(reason),
                    Ok(probability) => searched_frame(
                        model,
                        frame,
                        index,
                        blank,
                        state.taking(token, index, probability),
                        (n - 1) as nat,
                    ),
                }
            },
        }
    }
}

/// Where a search stands after the first `n` frames, or why it fails.
pub open spec fn searched(
    model: GreedyModel,
    frames: Seq<u32>,
    dim: int,
    offset: int,
    blank: u32,
    limit: usize,
    state: SearchState,
    n: int,
) -> Result<SearchState, Seq<char>>
    decreases n,
{
    if n <= 0 {
        Ok(state)
    } else {
        match searched(model, frames, dim, offset, blank, limit, state, n - 1) {
            Err(reason) => Err(reason),
            Ok(before) => {
                let frame = part_of(frames, dim, n - 1);
                if (model.frame_refusal)(frame) is Some {
                    Err((model.frame_refusal)(frame)->0)
                } else {
                    searched_frame(
                        model,
                        frame,
                        (offset + n - 1) as usize,
                        blank,
                        before,
                        limit as nat,
                    )
                }
            },
        }
    }
}

proof fn lemma_search_failure_stays(
    model: GreedyModel,
    frames: Seq<u32>,
    dim: int,
    offset: int,
    blank: u32,
    limit: usize,
    state: SearchState,
    n: int,
    more: int,
)
    requires
        n <= more,
        searched(model, frames, dim, offset, blank, limit, state, n) is Err,
    ensures
        searched(model, frames, dim, offset, blank, limit, state, more) == searched(
            model,
            frames,
            dim,
            offset,
            blank,
            limit,
            state,
            n,
        ),
    decreases more - n,
{
    if n < more {
        lemma_search_failure_stays(
            model,
            frames,
            dim,
            offset,
            blank,
            limit,
            state,
            n,
            more - 1,
        );
    }
}

/// Quiet frames leave a search where it stands.
proof fn lemma_quiet_frames(
    model: GreedyModel,
    frames: Seq<u32>,
    dim: int,
    offset: int,
    blank: u32,
    limit: usize,
    state: SearchState,
    n: int,
    skipped: int,
)
    requires
        0 <= n,
        0 <= skipped,
        0 <= dim,
        (n + skipped) * dim <= frames.len(),
        searched(model, frames, dim, offset, blank, limit, state, n) is Ok,
        model.quiet_frames(
            frames.subrange(n * dim, frames.len() as int),
            dim,
            searched(model, frames, dim, offset, blank, limit, state, n)->Ok_0.context,
            blank,
            skipped,
        ),
    ensures
        searched(model, frames, dim, offset, blank, limit, state, n + skipped) == searched(
            model,
            frames,
            dim,
            offset,
            blank,
            limit,
            state,
            n,
        ),
    decreases skipped,
{
    if skipped > 0 {
        let rest = frames.subrange(n * dim, frames.len() as int);
        let t = skipped - 1;
        assert((n + t) * dim <= (n + skipped) * dim && (n + t) * dim == n * dim + t * dim && (n + t
            + 1) * dim == n * dim + (t + 1) * dim && 0 <= n * dim && 0 <= t * dim && t * dim <= (t
            + 1) * dim) by (nonlinear_arith)
            requires
                0 <= n,
                0 <= t,
                0 <= dim,
                t == skipped - 1,
        ;
        lemma_quiet_frames(model, frames, dim, offset, blank, limit, state, n, t);
        assert(part_of(rest, dim, t) =~= part_of(frames, dim, n + t));
        let context = searched(model, frames, dim, offset, blank, limit, state, n)->Ok_0.context;
        assert(model.quiet(part_of(rest, dim, t), context, blank));
    }
}

/// Searching frames chunk by chunk, each time going on from where the search
/// stands, finds what searching all of them at once does.
pub proof fn law_chunks_find_what_one_search_does(
    model: GreedyModel,
    frames: Seq<u32>,
    dim: int,
    offset: int,
    blank: u32,
    limit: usize,
    state: SearchState,
    first: int,
    second: int,
)
    requires
        0 <= first,
        0 <= second,
        0 <= dim,
        frames.len() == (first + second) * dim,
        searched(model, frames.take(first * dim), dim, offset, blank, limit, state, first) is Ok,
    ensures
        searched(
            model,
            frames.skip(first * dim),
            dim,
            offset + first,
            blank,
            limit,
            searched(
                model,
                frames.take(first * dim),
                dim,
                offset,
                blank,
                limit,
                state,
                first,
            )->Ok_0,
            second,
        ) == searched(model, frames, dim, offset, blank, limit, state, first + second),
{
    assert(0 <= first * dim && first * dim <= (first + second) * dim) by (nonlinear_arith)
        requires
            0 <= first,
            0 <= second,
            0 <= dim,
    ;
    lemma_search_of_prefix(
        model,
        frames,
        dim,
        offset,
        blank,
        limit,
        state,
        first,
        first * dim,
    );
    lemma_search_of_rest(
        model,
        frames,
        dim,
        offset,
        blank,
        limit,
        state,
        first,
        second,
        second,
    );
}

proof fn lemma_search_of_prefix(
    model: GreedyModel,
    frames: Seq<u32>,
    dim: int,
    offset: int,
    blank: u32,
    limit: usize,
    state: SearchState,
    n: int,
    len: int,
)
    requires
        0 <= n,
        0 <= dim,
        n * dim <= len <= frames.len(),
    ensures
        searched(model, frames.take(len), dim, offset, blank, limit, state, n) == searched(
            model,
            frames,
            dim,
            offset,
            blank,
            limit,
            state,
            n,
        ),
    decreases n,
{
    if n > 0 {
        assert((n - 1) * dim <= n * dim && 0 <= (n - 1) * dim) by (nonlinear_arith)
            requires
                0 < n,
                0 <= dim,
        ;
        lemma_search_of_prefix(model, frames, dim, offset, blank, limit, state, n - 1, len);
        assert(part_of(frames.take(len), dim, n - 1) =~= part_of(frames, dim, n - 1));
    }
}

proof fn lemma_search_of_rest(
    model: GreedyModel,
    frames: Seq<u32>,
    dim: int,
    offset: int,
    blank: u32,
    limit: usize,
    state: SearchState,
    first: int,
    second: int,
    n: int,
)
    requires
        0 <= first,
        0 <= n <= second,
        0 <= dim,
        frames.len() == (first + second) * dim,
        0 <= first * dim <= frames.len(),
        searched(model, frames, dim, offset, blank, limit, state, first) is Ok,
    ensures
        searched(
            model,
            frames.skip(first * dim),
            dim,
            offset + first,
            blank,
            limit,
            searched(model, frames, dim, offset, blank, limit, state, first)->Ok_0,
            n,
        ) == searched(model, frames, dim, offset, blank, limit, state, first + n),
    decreases n,
{
    if n > 0 {
        lemma_search_of_rest(
            model,
            frames,
            dim,
            offset,
            blank,
            limit,
            state,
            first,
            second,
            n - 1,
        );
        let t = n - 1;
        assert((first + t) * dim == first * dim + t * dim && (first + t + 1) * dim == first * dim
            + (t + 1) * dim && (first + t + 1) * dim <= (first + second) * dim && 0 <= t * dim && t
            * dim <= (t + 1) * dim) by (nonlinear_arith)
            requires
                0 <= first,
                0 <= t,
                t + 1 <= second,
                0 <= dim,
        ;
        assert(part_of(frames.skip(first * dim), dim, t) =~= part_of(frames, dim, first + t));
    }
}

/// What a search has found: tokens, and for each its frame and probability.
#[derive(Clone, Debug, PartialEq)]
pub struct Emissions {
    pub token_ids: Vec<u32>,
    pub emit_frames: Vec<usize>,
    pub emit_probabilities: Vec<u32>,
}

/// What was added to the lists of a search.
pub struct NewTokens {
    pub tokens: Seq<u32>,
    pub frames: Seq<usize>,
    pub probabilities: Seq<u32>,
}

impl Emissions {
    /// Everything in `earlier` is still there.
    pub open spec fn extends(self, earlier: Emissions) -> bool {
        &&& earlier.token_ids@.is_prefix_of(self.token_ids@)
        &&& earlier.emit_frames@.is_prefix_of(self.emit_frames@)
        &&& earlier.emit_probabilities@.is_prefix_of(self.emit_probabilities@)
    }

    /// What was added to each list since `earlier`.
    pub open spec fn since(self, earlier: Emissions) -> NewTokens {
        NewTokens {
            tokens: self.token_ids@.skip(earlier.token_ids@.len() as int),
            frames: self.emit_frames@.skip(earlier.emit_frames@.len() as int),
            probabilities: self.emit_probabilities@.skip(
                earlier.emit_probabilities@.len() as int,
            ),
        }
    }

    /// All that was found.
    pub open spec fn all(self) -> NewTokens {
        NewTokens {
            tokens: self.token_ids@,
            frames: self.emit_frames@,
            probabilities: self.emit_probabilities@,
        }
    }

    /// Where the search stands with this context.
    pub open spec fn state(self, context: Seq<u32>) -> SearchState {
        SearchState {
            context,
            tokens: self.token_ids@,
            frames: self.emit_frames@,
            probabilities: self.emit_probabilities@,
        }
    }
}

/// A call that searches the first frames and a call that goes on with the others from the
/// context and the tokens that the first left find together what one call finds: the same
/// tokens, frames, probabilities and context, and as many new tokens.
pub proof fn law_two_calls_find_what_one_call_finds(
    model: GreedyModel,
    frames: Seq<u32>,
    dim: int,
    offset: int,
    blank: u32,
    limit: usize,
    first: int,
    second: int,
    before: (Emissions, Seq<u32>),
    between: (Emissions, Seq<u32>),
    after: (Emissions, Seq<u32>),
    at_once: (Emissions, Seq<u32>),
)
    requires
        0 <= first,
        0 <= second,
        0 <= dim,
        frames.len() == (first + second) * dim,
        searched(
            model,
            frames.take(first * dim),
            dim,
            offset,
            blank,
            limit,
            before.0.state(before.1),
            first,
        ) == Ok::<SearchState, Seq<char>>(between.0.state(between.1)),
        searched(
            model,
            frames.skip(first * dim),
            dim,
            offset + first,
            blank,
            limit,
            between.0.state(between.1),
            second,
        ) == Ok::<SearchState, Seq<char>>(after.0.state(after.1)),
        searched(
            model,
            frames,
            dim,
            offset,
            blank,
            limit,
            before.0.state(before.1),
            first + second,
        ) == Ok::<SearchState, Seq<char>>(at_once.0.state(at_once.1)),
    ensures
        after.0.token_ids@ == at_once.0.token_ids@,
        after.0.emit_frames@ == at_once.0.emit_frames@,
        after.0.emit_probabilities@ == at_once.0.emit_probabilities@,
        after.1 == at_once.1,
        (between.0.token_ids@.len() - before.0.token_ids@.len()) + (after.0.token_ids@.len()
            - between.0.token_ids@.len()) == at_once.0.token_ids@.len()
            - before.0.token_ids@.len(),
{
    law_chunks_find_what_one_search_does(
        model,
        frames,
        dim,
        offset,
        blank,
        limit,
        before.0.state(before.1),
        first,
        second,
    );
}

/// A search that fails at its first frames fails in the same way however many follow.
pub proof fn law_a_failing_chunk_fails_the_search(
    model: GreedyModel,
    frames: Seq<u32>,
    dim: int,
    offset: int,
    blank: u32,
    limit: usize,
    state: SearchState,
    first: int,
    second: int,
)
    requires
        0 <= first,
        0 <= second,
        0 <= dim,
        frames.len() == (first + second) * dim,
        searched(model, frames.take(first * dim), dim, offset, blank, limit, state, first) is Err,
    ensures
        searched(model, frames, dim, offset, blank, limit, state, first + second) == searched(
            model,
            frames.take(first * dim),
            dim,
            offset,
            blank,
            limit,
            state,
            first,
        ),
{
    assert(0 <= first * dim && first * dim <= (first + second) * dim) by (nonlinear_arith)
        requires
            0 <= first,
            0 <= second,
            0 <= dim,
    ;
    lemma_search_of_prefix(
        model,
        frames,
        dim,
        offset,
        blank,
        limit,
        state,
        first,
        first * dim,
    );
    lemma_search_failure_stays(
        model,
        frames,
        dim,
        offset,
        blank,
        limit,
        state,
        first,
        first + second,
    );
}

/// The backend gave this token, and this probability for it.
pub open spec fn given_by<B: XasrGreedyDecodeBackend>(token: u32, probability: u32) -> bool {
    &&& exists|backend: &mut B|
        #[trigger] call_ensures(B::next_token, (backend,), Ok::<u32, String>(token))
    &&& exists|backend: &B|
        #[trigger] call_ensures(
            B::token_probability,
            (backend, token),
            Ok::<u32, String>(probability),
        )
}

/// What a search over frames `first..last`, begun with the context `context`,
/// may have found: tokens that the backend gave, no blanks, in the order of the
/// frames, no more than `limit` at any of them, and the context moved on by
/// them.
pub open spec fn found<B: XasrGreedyDecodeBackend>(
    new: NewTokens,
    context: Seq<u32>,
    now: Seq<u32>,
    blank_id: u32,
    limit: usize,
    first: int,
    last: int,
) -> bool {
    let n = new.tokens.len() as int;
    &&& new.frames.len() == n
    &&& new.probabilities.len() == n
    &&& now == advanced(context, new.tokens)
    &&& forall|i: int| 0 <= i < n ==> #[trigger] new.tokens[i] != blank_id
    &&& forall|i: int|
        0 <= i < n ==> given_by::<B>(#[trigger] new.tokens[i], new.probabilities[i])
    &&& forall|i: int| 0 <= i < n ==> first <= #[trigger] new.frames[i] < last
    &&& forall|i: int, j: int|
        0 <= i <= j < n ==> #[trigger] new.frames[i] <= #[trigger] new.frames[j]
    &&& forall|i: int, j: int|
        0 <= i && i + limit <= j < n ==> #[trigger] new.frames[i] < #[trigger] new.frames[j]
}

/// A backend that had answered these calls gave this probability for the token.
pub open spec fn weighed_after<B: XasrGreedyDecodeBackend>(
    calls: Seq<BackendCall>,
    token: u32,
    probability: u32,
) -> bool {
    exists|backend: &B|
        backend.calls() == calls && #[trigger] call_ensures(
            B::token_probability,
            (backend, token),
            Ok::<u32, String>(probability),
        )
}

/// A backend that had answered these calls refused the probability of the token.
pub open spec fn unweighed_after<B: XasrGreedyDecodeBackend>(
    calls: Seq<BackendCall>,
    token: u32,
    reason: String,
) -> bool {
    exists|backend: &B|
        backend.calls() == calls && #[trigger] call_ensures(
            B::token_probability,
            (backend, token),
            Err::<u32, String>(reason),
        )
}

/// Where the calls that were answered since `base` take a search.
pub open spec fn run_since(
    task: SearchTask,
    context: Seq<u32>,
    base: Seq<BackendCall>,
    now: Seq<BackendCall>,
) -> SearchRun {
    replayed(task, SearchRun::beginning(context), now.skip(base.len() as int))->0
}

/// A backend that had answered these calls was asked how many of the frames are blank,
/// and could not tell.
pub open spec fn silent_after<B: XasrGreedyDecodeBackend>(
    calls: Seq<BackendCall>,
    context: Option<Seq<u32>>,
    frames: Seq<u32>,
    count: usize,
    dim: usize,
) -> bool {
    exists|asked: &mut B, given: Option<&[u32]>, rest: &[u32]|
        (*asked).calls() == calls && tokens_view(given) == context && rest@ == frames
            && #[trigger] call_ensures(
            B::speculative_blank_prefix_len,
            (asked, given, rest, count, dim),
            Ok::<Option<usize>, String>(None),
        )
}

/// The backend was asked for blanks where the search stands, and could not tell.
pub open spec fn silent_at<B: XasrGreedyDecodeBackend>(
    task: SearchTask,
    run: SearchRun,
    calls: Seq<BackendCall>,
) -> bool {
    silent_after::<B>(
        calls,
        if run.valid {
            None
        } else {
            Some(run.context)
        },
        task.frames.skip(run.frame * task.dim),
        (task.count - run.frame) as usize,
        task.dim,
    )
}

/// Wherever a frame is taken in between two frames, the backend was asked for blanks first,
/// and could not tell: every blank that it tells is on record.
#[verifier::opaque]
pub open spec fn asks_first<B: XasrGreedyDecodeBackend>(
    task: SearchTask,
    context: Seq<u32>,
    base: Seq<BackendCall>,
    now: Seq<BackendCall>,
) -> bool {
    forall|i: int|
        base.len() <= i < now.len() && #[trigger] now[i] is Frame && run_since(
            task,
            context,
            base,
            now.take(i),
        ).phase is Boundary ==> silent_at::<B>(
            task,
            run_since(task, context, base, now.take(i)),
            now.take(i),
        )
}

proof fn lemma_asks_push<B: XasrGreedyDecodeBackend>(
    task: SearchTask,
    context: Seq<u32>,
    base: Seq<BackendCall>,
    now: Seq<BackendCall>,
    call: BackendCall,
)
    requires
        asks_first::<B>(task, context, base, now),
        ({
            let run = run_since(task, context, base, now);
            call is Frame && run.phase is Boundary ==> silent_at::<B>(task, run, now)
        }),
    ensures
        asks_first::<B>(task, context, base, now.push(call)),
{
    reveal(asks_first);
    let longer = now.push(call);
    assert forall|i: int|
        base.len() <= i < longer.len() && #[trigger] longer[i] is Frame && run_since(
            task,
            context,
            base,
            longer.take(i),
        ).phase is Boundary implies silent_at::<B>(
        task,
        run_since(task, context, base, longer.take(i)),
        longer.take(i),
    ) by {
        if i < now.len() {
            assert(longer[i] == now[i]);
            assert(longer.take(i) =~= now.take(i));
        } else {
            assert(longer.take(i) =~= now);
        }
    }
}

/// The calls that were answered since `base` are those of the search, which asked for blanks
/// before each frame, and what it has found is what the answers give: the tokens, their
/// frames, and the probability that the backend gave for each as it was chosen.
#[verifier::opaque]
pub open spec fn traced<B: XasrGreedyDecodeBackend>(
    task: SearchTask,
    context: Seq<u32>,
    base: Seq<BackendCall>,
    now: Seq<BackendCall>,
    new: NewTokens,
) -> bool {
    let run = run_since(task, context, base, now);
    let n = run.tokens.len() as int;
    &&& base.is_prefix_of(now)
    &&& replayed(task, SearchRun::beginning(context), now.skip(base.len() as int)) is Some
    &&& asks_first::<B>(task, context, base, now)
    &&& new.tokens == run.tokens
    &&& new.frames == run.token_frames
    &&& new.probabilities.len() == n
    &&& run.choices.len() == n
    &&& run.token_frames.len() == n
    &&& forall|i: int|
        0 <= i < n ==> 0 <= #[trigger] run.choices[i] <= now.len() - base.len() && weighed_after::<
            B,
        >(now.take(base.len() + run.choices[i]), run.tokens[i], new.probabilities[i])
}

/// The backend refused the probability of the token chosen last; the token and its frame
/// are noted, and the context has not moved on.  The tokens before it are traced.
pub open spec fn stopped_unweighed<B: XasrGreedyDecodeBackend>(
    task: SearchTask,
    context: Seq<u32>,
    base: Seq<BackendCall>,
    now: Seq<BackendCall>,
    new: NewTokens,
    context_now: Seq<u32>,
    reason: String,
) -> bool {
    let before = run_since(task, context, base, now.drop_last());
    let run = run_since(task, context, base, now);
    &&& base.len() < now.len()
    &&& traced::<B>(
        task,
        context,
        base,
        now.drop_last(),
        (NewTokens {
            tokens: before.tokens,
            frames: before.token_frames,
            probabilities: new.probabilities,
        }),
    )
    &&& replayed(task, SearchRun::beginning(context), now.skip(base.len() as int)) is Some
    &&& run.tokens == before.tokens.push(run.tokens.last())
    &&& new.tokens == run.tokens
    &&& new.frames == run.token_frames
    &&& context_now == before.context
    &&& unweighed_after::<B>(now, run.tokens.last(), reason)
}

/// How a search ended: after all frames; on a refusal of the backend or because too many
/// blanks were told; on a refused probability; or canceled between two frames.
pub open spec fn search_ended<B: XasrGreedyDecodeBackend>(
    task: SearchTask,
    context: Seq<u32>,
    base: Seq<BackendCall>,
    now: Seq<BackendCall>,
    new: NewTokens,
    context_now: Seq<u32>,
    canceled: bool,
    result: Result<usize, String>,
) -> bool {
    let run = run_since(task, context, base, now);
    match result {
        Ok(count) => {
            &&& traced::<B>(task, context, base, now, new)
            &&& run.finished(task)
            &&& count == run.tokens.len()
            &&& context_now == run.context
        },
        Err(reason) => {
            ||| {
                &&& traced::<B>(task, context, base, now, new)
                &&& context_now == run.context
                &&& run.phase == (SearchPhase::Failed { reason: reason@ })
            }
            ||| {
                &&& traced::<B>(task, context, base, now, new)
                &&& context_now == run.context
                &&& canceled
                &&& run.phase is Boundary
                &&& 0 <= run.frame < task.count
                &&& reason@ == "xasr-zipformer decode canceled at encoder frame "@ + decimal(
                    run.frame as nat,
                )
            }
            ||| stopped_unweighed::<B>(task, context, base, now, new, context_now, reason)
        },
    }
}

/// Nothing has been asked and nothing found.
proof fn lemma_traced_start<B: XasrGreedyDecodeBackend>(
    task: SearchTask,
    context: Seq<u32>,
    base: Seq<BackendCall>,
    emissions: Emissions,
)
    ensures
        traced::<B>(task, context, base, base, emissions.since(emissions)),
        run_since(task, context, base, base) == SearchRun::beginning(context),
{
    reveal(traced);
    reveal(asks_first);
    assert(base.skip(base.len() as int) =~= Seq::<BackendCall>::empty());
    assert(base.subrange(0, base.len() as int) =~= base);
    let new = emissions.since(emissions);
    let run = SearchRun::beginning(context);
    assert(new.tokens =~= run.tokens);
    assert(new.frames =~= run.token_frames);
}

/// The number of new tokens.
proof fn lemma_traced_count<B: XasrGreedyDecodeBackend>(
    task: SearchTask,
    context: Seq<u32>,
    base: Seq<BackendCall>,
    now: Seq<BackendCall>,
    new: NewTokens,
)
    requires
        traced::<B>(task, context, base, now, new),
    ensures
        new.tokens.len() == run_since(task, context, base, now).tokens.len(),
{
    reveal(traced);
}

/// A further call that gives no token.
proof fn lemma_traced_call<B: XasrGreedyDecodeBackend>(
    task: SearchTask,
    context: Seq<u32>,
    base: Seq<BackendCall>,
    now: Seq<BackendCall>,
    new: NewTokens,
    call: BackendCall,
)
    requires
        traced::<B>(task, context, base, now, new),
        ({
            let run = run_since(task, context, base, now);
            let next = stepped(task, run, call, now.len() - base.len());
            &&& next is Some
            &&& next->0.tokens == run.tokens
            &&& next->0.token_frames == run.token_frames
            &&& next->0.choices == run.choices
            &&& call is Frame && run.phase is Boundary ==> silent_at::<B>(task, run, now)
        }),
    ensures
        traced::<B>(task, context, base, now.push(call), new),
        run_since(task, context, base, now.push(call)) == stepped(
            task,
            run_since(task, context, base, now),
            call,
            now.len() - base.len(),
        )->0,
{
    reveal(traced);
    let n = base.len() as int;
    let since = now.skip(n);
    let longer = now.push(call);
    lemma_asks_push::<B>(task, context, base, now, call);
    assert(longer.skip(n) =~= since.push(call));
    lemma_replayed_push(task, SearchRun::beginning(context), since, call);
    assert(base.is_prefix_of(longer)) by {
        assert(longer.subrange(0, n) =~= now.subrange(0, n));
    }
    let run = run_since(task, context, base, now);
    assert forall|i: int| 0 <= i < run.tokens.len() implies 0 <= #[trigger] run.choices[i]
        <= longer.len() - n && weighed_after::<B>(
        longer.take(n + run.choices[i]),
        run.tokens[i],
        new.probabilities[i],
    ) by {
        assert(longer.take(n + run.choices[i]) =~= now.take(n + run.choices[i]));
    }
}

/// A further call that gives a token, which is then noted.
proof fn lemma_traced_token<B: XasrGreedyDecodeBackend>(
    task: SearchTask,
    context: Seq<u32>,
    base: Seq<BackendCall>,
    now: Seq<BackendCall>,
    was: NewTokens,
    new: NewTokens,
    token: u32,
    frame: usize,
    probability: u32,
)
    requires
        traced::<B>(task, context, base, now, was),
        ({
            let run = run_since(task, context, base, now);
            &&& run.phase is Symbols
            &&& run.valid
            &&& frame == (task.offset + run.frame) as usize
        }),
        token != task.blank,
        weighed_after::<B>(
            now.push((BackendCall::Next { answer: Ok(token) })),
            token,
            probability,
        ),
        new.tokens == was.tokens.push(token),
        new.frames == was.frames.push(frame),
        new.probabilities == was.probabilities.push(probability),
    ensures
        ({
            let call = BackendCall::Next { answer: Ok::<u32, Seq<char>>(token) };
            &&& traced::<B>(task, context, base, now.push(call), new)
            &&& Some(run_since(task, context, base, now.push(call))) == stepped(
                task,
                run_since(task, context, base, now),
                call,
                now.len() - base.len(),
            )
        }),
{
    let call = BackendCall::Next { answer: Ok::<u32, Seq<char>>(token) };
    reveal(traced);
    let n = base.len() as int;
    let since = now.skip(n);
    let longer = now.push(call);
    lemma_asks_push::<B>(task, context, base, now, call);
    assert(longer.skip(n) =~= since.push(call));
    lemma_replayed_push(task, SearchRun::beginning(context), since, call);
    assert(base.is_prefix_of(longer)) by {
        assert(longer.subrange(0, n) =~= now.subrange(0, n));
    }
    let run = run_since(task, context, base, now);
    let next = run_since(task, context, base, longer);
    let count = run.tokens.len() as int;
    assert(next.tokens == run.tokens.push(token));
    assert(next.token_frames == run.token_frames.push(frame));
    assert(next.choices == run.choices.push(now.len() - n + 1));
    assert forall|i: int| 0 <= i < next.tokens.len() implies 0 <= #[trigger] next.choices[i]
        <= longer.len() - n && weighed_after::<B>(
        longer.take(n + next.choices[i]),
        next.tokens[i],
        new.probabilities[i],
    ) by {
        if i < count {
            assert(0 <= run.choices[i] <= now.len() - n);
            assert(longer.take(n + run.choices[i]) =~= now.take(n + run.choices[i]));
        } else {
            assert(longer.take(n + next.choices[i]) =~= longer);
        }
    }
}

/// A further call that gives a token whose probability is refused.
proof fn lemma_stopped_unweighed<B: XasrGreedyDecodeBackend>(
    task: SearchTask,
    context: Seq<u32>,
    base: Seq<BackendCall>,
    now: Seq<BackendCall>,
    was: NewTokens,
    new: NewTokens,
    token: u32,
    frame: usize,
    reason: String,
)
    requires
        traced::<B>(task, context, base, now, was),
        ({
            let run = run_since(task, context, base, now);
            &&& run.phase is Symbols
            &&& run.valid
            &&& frame == (task.offset + run.frame) as usize
        }),
        token != task.blank,
        unweighed_after::<B>(
            now.push((BackendCall::Next { answer: Ok(token) })),
            token,
            reason,
        ),
        new.tokens == was.tokens.push(token),
        new.frames == was.frames.push(frame),
        new.probabilities == was.probabilities,
    ensures
        stopped_unweighed::<B>(
            task,
            context,
            base,
            now.push((BackendCall::Next { answer: Ok(token) })),
            new,
            run_since(task, context, base, now).context,
            reason,
        ),
{
    let call = BackendCall::Next { answer: Ok::<u32, Seq<char>>(token) };
    assert(was.tokens == run_since(task, context, base, now).tokens && was.frames == run_since(
        task,
        context,
        base,
        now,
    ).token_frames && replayed(
        task,
        SearchRun::beginning(context),
        now.skip(base.len() as int),
    ) is Some && base.len() <= now.len()) by {
        reveal(traced);
    }
    let n = base.len() as int;
    let since = now.skip(n);
    let longer = now.push(call);
    assert(longer.skip(n) =~= since.push(call));
    assert(longer.drop_last() =~= now);
    lemma_replayed_push(task, SearchRun::beginning(context), since, call);
    let run = run_since(task, context, base, now);
    let next = run_since(task, context, base, longer);
    assert(next.tokens == run.tokens.push(token));
    assert(next.tokens =~= run.tokens.push(next.tokens.last()));
    assert(was == (NewTokens {
        tokens: run.tokens,
        frames: run.token_frames,
        probabilities: new.probabilities,
    }));
}

proof fn lemma_advanced_push(context: Seq<u32>, tokens: Seq<u32>, token: u32)
    requires
        context.len() > 0,
    ensures
        advanced(advanced(context, tokens), seq![token]) == advanced(context, tokens.push(token)),
        advanced(context, tokens).len() == context.len(),
{
    assert(advanced(advanced(context, tokens), seq![token]) =~= advanced(
        context,
        tokens.push(token),
    ));
}

/// Why frames do not have their shape.
pub open spec fn frames_refusal(count: int, frame_count: usize, encoder_dim: usize) -> Option<
    Seq<char>,
> {
    if frame_count * encoder_dim > usize::MAX {
        Some("xasr greedy encoder shape overflow"@)
    } else if count != frame_count * encoder_dim {
        Some(
            "xasr greedy got "@ + decimal(count as nat) + " encoder values, expected "@ + decimal(
                (frame_count * encoder_dim) as nat,
            ),
        )
    } else {
        None
    }
}

/// A token and its frame are noted, and its probability where there is one.
proof fn lemma_pushed(
    origin: Emissions,
    earlier: Emissions,
    emissions: Emissions,
    token: u32,
    frame: usize,
    probability: Option<u32>,
)
    requires
        earlier.extends(origin),
        emissions.token_ids@ == earlier.token_ids@.push(token),
        emissions.emit_frames@ == earlier.emit_frames@.push(frame),
        emissions.emit_probabilities@ == match probability {
            Some(value) => earlier.emit_probabilities@.push(value),
            None => earlier.emit_probabilities@,
        },
    ensures
        emissions.extends(earlier),
        emissions.extends(origin),
        emissions.since(origin).tokens == earlier.since(origin).tokens.push(token),
        emissions.since(origin).frames == earlier.since(origin).frames.push(frame),
        emissions.since(origin).probabilities == match probability {
            Some(value) => earlier.since(origin).probabilities.push(value),
            None => earlier.since(origin).probabilities,
        },
{
    assert(earlier.token_ids@ =~= emissions.token_ids@.subrange(
        0,
        earlier.token_ids@.len() as int,
    ));
    assert(earlier.emit_frames@ =~= emissions.emit_frames@.subrange(
        0,
        earlier.emit_frames@.len() as int,
    ));
    assert(earlier.emit_probabilities@ =~= emissions.emit_probabilities@.subrange(
        0,
        earlier.emit_probabilities@.len() as int,
    ));
    lemma_extends_trans(origin, earlier, emissions);
    let was = earlier.since(origin);
    let new = emissions.since(origin);
    assert(new.tokens =~= was.tokens.push(token));
    assert(new.frames =~= was.frames.push(frame));
    match probability {
        Some(value) => assert(new.probabilities =~= was.probabilities.push(value)),
        None => assert(new.probabilities =~= was.probabilities),
    }
}

/// Takes tokens at one frame until a blank or the limit.
#[verifier::spinoff_prover]
#[verifier::rlimit(60)]
fn search_frame<B: XasrGreedyDecodeBackend>(
    backend: &mut B,
    blank_id: u32,
    max_symbols_per_frame: usize,
    frame: usize,
    projection_valid: bool,
    context: &mut Vec<u32>,
    emissions: &mut Emissions,
    Ghost(det): Ghost<bool>,
    Ghost(values): Ghost<Seq<u32>>,
    Ghost(origin): Ghost<Emissions>,
    Ghost(initial): Ghost<Seq<u32>>,
    Ghost(first): Ghost<int>,
    Ghost(task): Ghost<SearchTask>,
    Ghost(base): Ghost<Seq<BackendCall>>,
) -> (result: Result<bool, String>)
    requires
        initial.len() > 0 || max_symbols_per_frame == 0,
        task.blank == blank_id,
        task.limit == max_symbols_per_frame,
        old(emissions).extends(origin),
        traced::<B>(task, initial, base, old(backend).calls(), old(emissions).since(origin)),
        ({
            let run = run_since(task, initial, base, old(backend).calls());
            &&& run.context == old(context)@
            &&& run.valid == projection_valid
            &&& if max_symbols_per_frame == 0 {
                run.phase is Boundary
            } else {
                run.phase == (SearchPhase::Symbols { taken: 0 }) && frame == (task.offset
                    + run.frame) as usize
            }
        }),
        first <= frame,
        found::<B>(
            old(emissions).since(origin),
            initial,
            old(context)@,
            blank_id,
            max_symbols_per_frame,
            first,
            frame as int,
        ),
        det ==> old(backend).deterministic(),
        det ==> old(backend).holds_frame(values),
        det && projection_valid ==> old(backend).holds_context(
            old(context)@,
        ) && (old(backend).model().context_refusal)(old(context)@) is None,
    ensures
        same_answers(*final(backend), *old(backend)),
        final(emissions).extends(*old(emissions)),
        ({
            let run = run_since(task, initial, base, old(backend).calls());
            let next = run_since(task, initial, base, final(backend).calls());
            match result {
                Ok(valid) => {
                    &&& traced::<B>(
                        task,
                        initial,
                        base,
                        final(backend).calls(),
                        final(emissions).since(origin),
                    )
                    &&& next.phase is Boundary
                    &&& next.frame == if run.phase is Boundary {
                        run.frame
                    } else {
                        run.frame + 1
                    }
                    &&& next.valid == valid
                    &&& next.context == final(context)@
                },
                Err(reason) => {
                    ||| traced::<B>(
                        task,
                        initial,
                        base,
                        final(backend).calls(),
                        final(emissions).since(origin),
                    ) && next.context == final(context)@ && next.phase == (SearchPhase::Failed {
                        reason: reason@,
                    })
                    ||| stopped_unweighed::<B>(
                        task,
                        initial,
                        base,
                        final(backend).calls(),
                        final(emissions).since(origin),
                        final(context)@,
                        reason,
                    )
                },
            }
        }),
        result is Ok ==> found::<B>(
            final(emissions).since(origin),
            initial,
            final(context)@,
            blank_id,
            max_symbols_per_frame,
            first,
            frame + 1,
        ),
        det ==> match searched_frame(
            old(backend).model(),
            values,
            frame,
            blank_id,
            old(emissions).state(old(context)@),
            max_symbols_per_frame as nat,
        ) {
            Ok(state) => result is Ok && final(emissions).state(final(context)@) == state,
            Err(reason) => result is Err && result->Err_0@ == reason,
        },
        det && result is Ok && result->Ok_0 ==> {
            &&& final(backend).holds_context(final(context)@)
            &&& (old(backend).model().context_refusal)(final(context)@) is None
        },
{
    let mut valid = projection_valid;
    let ghost before = emissions.since(origin);
    let ghost start = before.tokens.len() as int;
    let ghost model = backend.model();
    let ghost whole = searched_frame(
        model,
        values,
        frame,
        blank_id,
        emissions.state(context@),
        max_symbols_per_frame as nat,
    );
    let mut symbols: usize = 0;
    let mut searching = true;
    let ghost begun = run_since(task, initial, base, backend.calls());
    while searching && symbols < max_symbols_per_frame
        invariant
            initial.len() > 0 || max_symbols_per_frame == 0,
            task.blank == blank_id,
            task.limit == max_symbols_per_frame,
            begun == run_since(task, initial, base, old(backend).calls()),
            if max_symbols_per_frame == 0 {
                begun.phase is Boundary
            } else {
                begun.phase == (SearchPhase::Symbols { taken: 0 }) && frame == (task.offset
                    + begun.frame) as usize
            },
            traced::<B>(task, initial, base, backend.calls(), emissions.since(origin)),
            ({
                let run = run_since(task, initial, base, backend.calls());
                &&& run.context == context@
                &&& run.valid == valid
                &&& if searching && symbols < max_symbols_per_frame {
                    run.phase == (SearchPhase::Symbols { taken: symbols as nat }) && run.frame
                        == begun.frame
                } else {
                    run.phase is Boundary && run.frame == (if begun.phase is Boundary {
                        begun.frame
                    } else {
                        begun.frame + 1
                    })
                }
            }),
            first <= frame,
            symbols <= max_symbols_per_frame,
            old(emissions).extends(origin),
            before == old(emissions).since(origin),
            start == before.tokens.len(),
            found::<B>(
                before,
                initial,
                old(context)@,
                blank_id,
                max_symbols_per_frame,
                first,
                frame as int,
            ),
            found::<B>(
                emissions.since(origin),
                initial,
                context@,
                blank_id,
                max_symbols_per_frame,
                first,
                frame + 1,
            ),
            emissions.extends(*old(emissions)),
            emissions.extends(origin),
            before.frames.is_prefix_of(emissions.since(origin).frames),
            searching ==> emissions.since(origin).tokens.len() == start + symbols,
            forall|i: int|
                start <= i < emissions.since(origin).tokens.len()
                    ==> #[trigger] emissions.since(origin).frames[i] == frame,
            emissions.since(origin).tokens.len() <= start + symbols,
            same_answers(*backend, *old(backend)),
            model == old(backend).model(),
            det ==> old(backend).deterministic(),
            whole == searched_frame(
                model,
                values,
                frame,
                blank_id,
                old(emissions).state(old(context)@),
                max_symbols_per_frame as nat,
            ),
            det ==> backend.holds_frame(values),
            det && valid ==> backend.holds_context(context@) && (model.context_refusal)(
                context@,
            ) is None,
            det && searching ==> whole == searched_frame(
                model,
                values,
                frame,
                blank_id,
                emissions.state(context@),
                (max_symbols_per_frame - symbols) as nat,
            ),
            det && !searching ==> whole == Ok::<SearchState, Seq<char>>(
                emissions.state(context@),
            ),
        decreases
                max_symbols_per_frame - symbols,
                if searching {
                    1int
                } else {
                    0
                },
    {
        if !valid {
            let ghost calls = backend.calls();
            let taken = backend.project_decoder_context(context.as_slice());
            proof {
                lemma_traced_call::<B>(
                    task,
                    initial,
                    base,
                    calls,
                    emissions.since(origin),
                    BackendCall::Context { context: context@, answer: answer_view(taken) },
                );
            }
            match taken {
                Ok(_) => {},
                Err(reason) => return Err(reason),
            }
            valid = true;
        }
        assert(det ==> backend.holds_context(context@) && backend.holds_frame(values));
        let ghost asked = backend.calls();
        let answer = backend.next_token();
        proof {
            if answer is Err || answer->Ok_0 == blank_id {
                lemma_traced_call::<B>(
                    task,
                    initial,
                    base,
                    asked,
                    emissions.since(origin),
                    BackendCall::Next { answer: answer_view(answer) },
                );
            }
        }
        let token_id = match answer {
            Ok(token_id) => token_id,
            Err(reason) => return Err(reason),
        };
        if token_id == blank_id {
            searching = false;
        } else {
            let ghost was = emissions.since(origin);
            let ghost tokens = was.tokens;
            let ghost earlier = *emissions;
            let ghost held = context@;
            emissions.token_ids.push(token_id);
            emissions.emit_frames.push(frame);
            assert(det ==> backend.holds_choice(values, held));
            let weighed = backend.token_probability(token_id);
            let probability = match weighed {
                Ok(probability) => probability,
                Err(reason) => {
                    proof {
                        assert(unweighed_after::<B>(backend.calls(), token_id, reason));
                        lemma_pushed(origin, earlier, *emissions, token_id, frame, None);
                        lemma_extends_trans(*old(emissions), earlier, *emissions);
                        lemma_stopped_unweighed::<B>(
                            task,
                            initial,
                            base,
                            asked,
                            was,
                            emissions.since(origin),
                            token_id,
                            frame,
                            reason,
                        );
                    }
                    return Err(reason);
                },
            };
            emissions.emit_probabilities.push(probability);
            proof {
                assert(weighed_after::<B>(backend.calls(), token_id, probability));
                lemma_pushed(origin, earlier, *emissions, token_id, frame, Some(probability));
                lemma_extends_trans(*old(emissions), earlier, *emissions);
                lemma_traced_token::<B>(
                    task,
                    initial,
                    base,
                    asked,
                    was,
                    emissions.since(origin),
                    token_id,
                    frame,
                    probability,
                );
                assert(given_by::<B>(token_id, probability));
                lemma_advanced_push(initial, tokens, token_id);
            }
            context.remove(0);
            context.push(token_id);
            proof {
                let moved = advanced(advanced(initial, tokens), seq![token_id]);
                assert(context@ =~= moved);
                assert(context@ =~= held.skip(1).push(token_id));
                let new = emissions.since(origin);
                let n = new.tokens.len() as int;
                assert(before.frames.is_prefix_of(new.frames)) by {
                    assert(before.frames =~= new.frames.subrange(0, before.frames.len() as int));
                }
                assert forall|i: int, j: int|
                    0 <= i && i + max_symbols_per_frame <= j < n implies #[trigger] new.frames[i]
                    < #[trigger] new.frames[j] by {
                    if j == n - 1 {
                        assert(i < start);
                        assert(before.frames[i] == new.frames[i]);
                    } else {
                        assert(was.frames[i] == new.frames[i]);
                        assert(was.frames[j] == new.frames[j]);
                    }
                }
            }
            symbols = symbols + 1;
            valid = false;
        }
    }
    Ok(valid)
}

/// The answers are functions of what was taken in, and if blanks are told
/// beforehand, they are the blanks of the search.
pub open spec fn tells_blanks<B: XasrGreedyDecodeBackend>(backend: B, blank_id: u32) -> bool {
    &&& backend.deterministic()
    &&& backend.speculates() ==> backend.blank() == blank_id
}

/// A search is never canceled.
pub open spec fn never_cancels<C: Fn() -> bool>(is_canceled: C) -> bool {
    !call_ensures(is_canceled, (), true)
}

/// Searches frames one after the other, going on from a context and appending
/// to what was found.  Gives the number of new tokens.
#[verifier::spinoff_prover]
#[verifier::rlimit(100)]
pub fn greedy_decode_frames_incremental_with_backend<B: XasrGreedyDecodeBackend, C: Fn() -> bool>(
    encoder_frames: &[u32],
    frame_count: usize,
    encoder_dim: usize,
    backend: &mut B,
    blank_id: u32,
    max_symbols_per_frame: usize,
    context: &mut Vec<u32>,
    emissions: &mut Emissions,
    frame_offset: usize,
    is_canceled: &C,
) -> (result: Result<usize, String>)
    requires
        old(context)@.len() > 0 || frame_count == 0 || max_symbols_per_frame == 0,
        frame_offset + frame_count <= usize::MAX,
        call_requires(is_canceled, ()),
    ensures
        final(emissions).extends(*old(emissions)),
        frames_refusal(encoder_frames@.len() as int, frame_count, encoder_dim) is None
            ==> search_ended::<B>(
            (SearchTask {
                frames: encoder_frames@,
                count: frame_count,
                dim: encoder_dim,
                blank: blank_id,
                limit: max_symbols_per_frame,
                offset: frame_offset,
            }),
            old(context)@,
            old(backend).calls(),
            final(backend).calls(),
            final(emissions).since(*old(emissions)),
            final(context)@,
            call_ensures(is_canceled, (), true),
            result,
        ),
        result is Ok && frame_count > 0 ==> call_ensures(is_canceled, (), false),
        frames_refusal(encoder_frames@.len() as int, frame_count, encoder_dim) is None
            && frame_count > 0 && !call_ensures(is_canceled, (), false) ==> {
            &&& result is Err
            &&& result->Err_0@ == "xasr-zipformer decode canceled at encoder frame "@ + decimal(0)
            &&& *final(emissions) == *old(emissions)
            &&& final(context)@ == old(context)@
            &&& final(backend).calls() == old(backend).calls()
        },
        frames_refusal(encoder_frames@.len() as int, frame_count, encoder_dim) is Some ==> {
            &&& text_outcome(
                result,
                frames_refusal(encoder_frames@.len() as int, frame_count, encoder_dim),
            )
            &&& *final(emissions) == *old(emissions)
            &&& final(context)@ == old(context)@
            &&& final(backend).calls() == old(backend).calls()
        },
        frames_refusal(encoder_frames@.len() as int, frame_count, encoder_dim) is None
            && frame_count == 0 ==> result is Ok,
        result is Ok ==> {
            &&& result->Ok_0 == final(emissions).token_ids@.len() - old(emissions).token_ids@.len()
            &&& found::<B>(
                final(emissions).since(*old(emissions)),
                old(context)@,
                final(context)@,
                blank_id,
                max_symbols_per_frame,
                frame_offset as int,
                frame_offset + frame_count,
            )
        },
        same_answers(*final(backend), *old(backend)),
        result is Ok && tells_blanks(*old(backend), blank_id) ==> searched(
            old(backend).model(),
            encoder_frames@,
            encoder_dim as int,
            frame_offset as int,
            blank_id,
            max_symbols_per_frame,
            old(emissions).state(old(context)@),
            frame_count as int,
        ) == Ok::<SearchState, Seq<char>>(final(emissions).state(final(context)@)),
        result is Err && old(backend).deterministic() && !old(backend).speculates()
            && never_cancels(*is_canceled) && frames_refusal(
            encoder_frames@.len() as int,
            frame_count,
            encoder_dim,
        ) is None ==> searched(
            old(backend).model(),
            encoder_frames@,
            encoder_dim as int,
            frame_offset as int,
            blank_id,
            max_symbols_per_frame,
            old(emissions).state(old(context)@),
            frame_count as int,
        ) == Err::<SearchState, Seq<char>>(result->Err_0@),
{
    let expected = match frame_count.checked_mul(encoder_dim) {
        Some(expected) => expected,
        None => return Err(text::copy_text("xasr greedy encoder shape overflow")),
    };
    if encoder_frames.len() != expected {
        let mut reason = text::copy_text("xasr greedy got ");
        text::push_number(&mut reason, encoder_frames.len());
        reason.append(" encoder values, expected ");
        text::push_number(&mut reason, expected);
        return Err(reason);
    }
    let start_len = emissions.token_ids.len();
    let ghost origin = *emissions;
    let ghost initial = context@;
    let ghost offset = frame_offset as int;
    proof {
        assert(emissions.since(origin).tokens =~= Seq::<u32>::empty());
        assert(advanced(initial, Seq::<u32>::empty()) =~= initial);
        assert(emissions.extends(origin)) by {
            assert(emissions.token_ids@.subrange(0, emissions.token_ids@.len() as int)
                =~= emissions.token_ids@);
            assert(emissions.emit_frames@.subrange(0, emissions.emit_frames@.len() as int)
                =~= emissions.emit_frames@);
            assert(emissions.emit_probabilities@.subrange(
                0,
                emissions.emit_probabilities@.len() as int,
            ) =~= emissions.emit_probabilities@);
        }
    }
    let ghost model = backend.model();
    let ghost det = tells_blanks(*backend, blank_id);
    let ghost state = emissions.state(context@);
    let ghost dim = encoder_dim as int;
    let ghost task = SearchTask {
        frames: encoder_frames@,
        count: frame_count,
        dim: encoder_dim,
        blank: blank_id,
        limit: max_symbols_per_frame,
        offset: frame_offset,
    };
    let ghost base = backend.calls();
    proof {
        lemma_traced_start::<B>(task, initial, base, *emissions);
    }
    let mut projection_valid = false;
    let mut frame_idx: usize = 0;
    while frame_idx < frame_count
        invariant
            frame_idx <= frame_count,
            task == (SearchTask {
                frames: encoder_frames@,
                count: frame_count,
                dim: encoder_dim,
                blank: blank_id,
                limit: max_symbols_per_frame,
                offset: frame_offset,
            }),
            base == old(backend).calls(),
            traced::<B>(task, initial, base, backend.calls(), emissions.since(origin)),
            ({
                let run = run_since(task, initial, base, backend.calls());
                &&& run.context == context@
                &&& run.valid == projection_valid
                &&& run.phase is Boundary
                &&& run.frame == frame_idx
            }),
            frame_idx == 0 ==> {
                &&& backend.calls() == base
                &&& *emissions == *old(emissions)
                &&& context@ == initial
            },
            frame_idx > 0 ==> call_ensures(is_canceled, (), false),
            frame_offset + frame_count <= usize::MAX,
            encoder_frames@.len() == frame_count * encoder_dim,
            encoder_frames@.len() <= usize::MAX,
            frames_refusal(encoder_frames@.len() as int, frame_count, encoder_dim) is None,
            dim == encoder_dim,
            initial == old(context)@,
            initial.len() > 0 || frame_count == 0 || max_symbols_per_frame == 0,
            origin == *old(emissions),
            start_len == origin.token_ids@.len(),
            offset == frame_offset,
            call_requires(is_canceled, ()),
            emissions.extends(*old(emissions)),
            found::<B>(
                emissions.since(origin),
                initial,
                context@,
                blank_id,
                max_symbols_per_frame,
                offset,
                offset + frame_idx,
            ),
            same_answers(*backend, *old(backend)),
            model == old(backend).model(),
            det == tells_blanks(*old(backend), blank_id),
            state == old(emissions).state(old(context)@),
            det && projection_valid ==> backend.holds_context(context@) && (model.context_refusal)(
                context@,
            ) is None,
            det ==> searched(
                model,
                encoder_frames@,
                dim,
                offset,
                blank_id,
                max_symbols_per_frame,
                state,
                frame_idx as int,
            ) == Ok::<SearchState, Seq<char>>(emissions.state(context@)),
        decreases frame_count - frame_idx,
    {
        if is_canceled() {
            let mut reason = text::copy_text("xasr-zipformer decode canceled at encoder frame ");
            text::push_number(&mut reason, frame_idx);
            return Err(reason);
        }
        proof {
            lemma_part_bounds(frame_idx as int, frame_count as int, encoder_dim as int);
        }
        let remaining_frames = frame_count - frame_idx;
        let remaining_values = vstd::slice::slice_subrange(
            encoder_frames,
            frame_idx * encoder_dim,
            encoder_frames.len(),
        );
        let ghost told = *backend;
        assert(remaining_values@ =~= encoder_frames@.skip(frame_idx * encoder_dim));
        let answer = if projection_valid {
            backend.speculative_blank_prefix_len(
                None,
                remaining_values,
                remaining_frames,
                encoder_dim,
            )
        } else {
            backend.speculative_blank_prefix_len(
                Some(context.as_slice()),
                remaining_values,
                remaining_frames,
                encoder_dim,
            )
        };
        proof {
            if answer is Err || answer->Ok_0 is Some {
                lemma_traced_call::<B>(
                    task,
                    initial,
                    base,
                    told.calls(),
                    emissions.since(origin),
                    backend.calls().last(),
                );
            }
        }
        let speculated = match answer {
            Ok(speculated) => speculated,
            Err(reason) => return Err(reason),
        };
        if let Some(blank_prefix_len) = speculated {
            if blank_prefix_len > remaining_frames {
                return Err(
                    text::copy_text("xasr speculative blank prefix exceeds remaining frames"),
                );
            }
            proof {
                if det {
                    assert(backend.holds_context(context@));
                    assert(told.model().quiet_frames(
                        remaining_values@,
                        dim,
                        context@,
                        told.blank(),
                        blank_prefix_len as int,
                    ));
                    let skipped = frame_idx + blank_prefix_len;
                    assert(skipped * dim <= frame_count * dim) by (nonlinear_arith)
                        requires
                            0 <= skipped <= frame_count,
                            0 <= dim,
                    ;
                    lemma_quiet_frames(
                        model,
                        encoder_frames@,
                        dim,
                        offset,
                        blank_id,
                        max_symbols_per_frame,
                        state,
                        frame_idx as int,
                        blank_prefix_len as int,
                    );
                }
            }
            projection_valid = true;
            frame_idx = frame_idx + blank_prefix_len;
        } else {
            assert(det && projection_valid ==> backend.holds_context(context@));
            proof {
                let run = run_since(task, initial, base, told.calls());
                assert(silent_at::<B>(task, run, told.calls()));
            }
        }
        if frame_idx < frame_count {
            proof {
                lemma_part_bounds(frame_idx as int, frame_count as int, encoder_dim as int);
            }
            let frame = vstd::slice::slice_subrange(
                encoder_frames,
                frame_idx * encoder_dim,
                (frame_idx + 1) * encoder_dim,
            );
            assert(frame@ == part_of(encoder_frames@, dim, frame_idx as int));
            let ghost asked = backend.calls();
            let taken = backend.project_encoder_frame(frame);
            proof {
                lemma_traced_call::<B>(
                    task,
                    initial,
                    base,
                    asked,
                    emissions.since(origin),
                    BackendCall::Frame { frame: frame@, answer: answer_view(taken) },
                );
            }
            match taken {
                Ok(_) => {},
                Err(reason) => {
                    proof {
                        if det {
                            lemma_search_failure_stays(
                                model,
                                encoder_frames@,
                                dim,
                                offset,
                                blank_id,
                                max_symbols_per_frame,
                                state,
                                frame_idx + 1,
                                frame_count as int,
                            );
                        }
                    }
                    return Err(reason);
                },
            }
            let ghost was = *emissions;
            assert(det && projection_valid ==> backend.holds_context(context@));
            let searched_tokens = search_frame(
                backend,
                blank_id,
                max_symbols_per_frame,
                frame_offset + frame_idx,
                projection_valid,
                context,
                emissions,
                Ghost(det),
                Ghost(frame@),
                Ghost(origin),
                Ghost(initial),
                Ghost(offset),
                Ghost(task),
                Ghost(base),
            );
            proof {
                lemma_extends_trans(*old(emissions), was, *emissions);
                if det && searched_tokens is Err {
                    lemma_search_failure_stays(
                        model,
                        encoder_frames@,
                        dim,
                        offset,
                        blank_id,
                        max_symbols_per_frame,
                        state,
                        frame_idx + 1,
                        frame_count as int,
                    );
                }
            }
            projection_valid = searched_tokens?;
            frame_idx = frame_idx + 1;
        }
    }
    proof {
        lemma_traced_count::<B>(task, initial, base, backend.calls(), emissions.since(origin));
    }
    Ok(emissions.token_ids.len() - start_len)
}

proof fn lemma_extends_trans(a: Emissions, b: Emissions, c: Emissions)
    requires
        b.extends(a),
        c.extends(b),
    ensures
        c.extends(a),
{
    assert(a.token_ids@ =~= c.token_ids@.subrange(0, a.token_ids@.len() as int));
    assert(a.emit_frames@ =~= c.emit_frames@.subrange(0, a.emit_frames@.len() as int));
    assert(a.emit_probabilities@ =~= c.emit_probabilities@.subrange(
        0,
        a.emit_probabilities@.len() as int,
    ));
}

/// A predictor and joiner that are computed on the host.
pub struct HostXasrGreedyDecodeBackend<'a, O: FloatOps> {
    ops: &'a O,
    decoder: &'a XasrDecoder,
    joiner: &'a XasrJoiner,
    scratch: XasrJoinerScratch,
    log: Ghost<Seq<BackendCall>>,
}

impl<'a, O: FloatOps> HostXasrGreedyDecodeBackend<'a, O> {
    #[verifier::type_invariant]
    spec fn sound(self) -> bool {
        &&& self.decoder.complete()
        &&& self.scratch.joined@.len()
            == self.joiner.spec_weights().encoder_proj_weight.output_dim
    }

    pub closed spec fn spec_ops(self) -> &'a O {
        self.ops
    }

    pub closed spec fn spec_decoder(self) -> XasrDecoder {
        *self.decoder
    }

    pub closed spec fn spec_joiner(self) -> XasrJoiner {
        *self.joiner
    }

    pub closed spec fn spec_scratch(self) -> XasrJoinerScratch {
        self.scratch
    }

    pub closed spec fn spec_log(self) -> Seq<BackendCall> {
        self.log@
    }

    /// Only the scratch and the answered calls differ.
    pub open spec fn same_model(self, other: Self) -> bool {
        &&& self.spec_ops() == other.spec_ops()
        &&& self.spec_decoder() == other.spec_decoder()
        &&& self.spec_joiner() == other.spec_joiner()
    }

    /// A backend with an empty scratch.
    pub fn new(ops: &'a O, decoder: &'a XasrDecoder, joiner: &'a XasrJoiner) -> (backend: Self)
        requires
            decoder.complete(),
        ensures
            backend.spec_ops() == ops,
            backend.spec_decoder() == *decoder,
            backend.spec_joiner() == *joiner,
            backend.spec_log() == Seq::<BackendCall>::empty(),
    {
        let scratch = joiner.scratch();
        HostXasrGreedyDecodeBackend { ops, decoder, joiner, scratch, log: Ghost(Seq::empty()) }
    }
}

/// The last greatest of logits, or that there is none.
pub open spec fn best_of(logits: Seq<u32>) -> Result<u32, Seq<char>> {
    if exists|index: int| is_last_greatest(logits, index) {
        Ok((choose|index: int| is_last_greatest(logits, index)) as u32)
    } else {
        Err("xasr joiner produced no logits"@)
    }
}

/// The probability of a token by logits.
pub open spec fn probability_of(
    m: FloatModel,
    logits: Seq<u32>,
    token: u32,
) -> Result<u32, Seq<char>> {
    if token >= logits.len() {
        Err(
            "xasr joiner token id "@ + decimal(token as nat) + " out of range for "@ + decimal(
                logits.len(),
            ) + " logits"@,
        )
    } else {
        Ok((m.div)(exponentials(m, logits)[token as int], normalizer(m, logits)))
    }
}

/// Why a projection fails.
pub open spec fn projection_refusal(result: Result<Seq<u32>, Seq<char>>) -> Option<Seq<char>> {
    match result {
        Ok(_) => None,
        Err(reason) => Some(reason),
    }
}

/// A context through the predictor and its projection.
pub open spec fn projected_context(
    m: FloatModel,
    decoder: XasrDecoder,
    joiner: XasrJoiner,
    context: Seq<u32>,
) -> Result<Seq<u32>, Seq<char>> {
    if decoder.decode_refusal(context) is Some {
        Err(decoder.decode_refusal(context)->0)
    } else {
        projected(
            m,
            joiner.spec_weights().decoder_proj_weight,
            joiner.spec_weights().decoder_proj_bias@,
            decoder.decoded(m, context),
        )
    }
}

/// An encoder frame through its projection.
pub open spec fn projected_frame(m: FloatModel, joiner: XasrJoiner, frame: Seq<u32>) -> Result<
    Seq<u32>,
    Seq<char>,
> {
    projected(
        m,
        joiner.spec_weights().encoder_proj_weight,
        joiner.spec_weights().encoder_proj_bias@,
        frame,
    )
}

/// What a predictor and joiner on the host answer.
pub open spec fn host_model(
    m: FloatModel,
    decoder: XasrDecoder,
    joiner: XasrJoiner,
) -> GreedyModel {
    GreedyModel {
        frame_refusal: |frame: Seq<u32>| projection_refusal(projected_frame(m, joiner, frame)),
        context_refusal: |context: Seq<u32>|
            projection_refusal(projected_context(m, decoder, joiner, context)),
        best: |frame: Seq<u32>, context: Seq<u32>|
            match joiner.spec_logits(m, frame, decoder.decoded(m, context)) {
                Ok(logits) => best_of(logits),
                Err(reason) => Err(reason),
            },
        probability: |frame: Seq<u32>, context: Seq<u32>, token: u32|
            match joiner.spec_logits(m, frame, decoder.decoded(m, context)) {
                Ok(logits) => probability_of(m, logits, token),
                Err(reason) => Err(reason),
            },
    }
}

/// Projections of one length fill the joined state.
proof fn lemma_joined_whole(
    m: FloatModel,
    weights: XasrJoinerWeights,
    a: Seq<u32>,
    b: Seq<u32>,
    enc: Seq<u32>,
    dec: Seq<u32>,
)
    requires
        a.len() == b.len(),
        enc.len() == a.len(),
    ensures
        joined_logits(m, weights, a, enc, dec) == joined_logits(m, weights, b, enc, dec),
{
    if enc.len() == dec.len() {
        assert(joined_state(m, a, enc, dec) =~= joined_state(m, b, enc, dec));
    }
}

/// What `argmax` gives is the best of the logits.
proof fn lemma_best_of(logits: Seq<u32>, token: Option<u32>)
    requires
        match token {
            Some(best) => exists|index: int|
                #[trigger] is_last_greatest(logits, index) && best == index as u32,
            None => forall|j: int| 0 <= j < logits.len() ==> !bits::finite(#[trigger] logits[j]),
        },
    ensures
        token is Some ==> best_of(logits) == Ok::<u32, Seq<char>>(token->0),
        token is None ==> best_of(logits) == Err::<u32, Seq<char>>(
            "xasr joiner produced no logits"@,
        ),
{
    if token is Some {
        let index = choose|index: int|
            #[trigger] is_last_greatest(logits, index) && token->0 == index as u32;
        let other = choose|index: int| is_last_greatest(logits, index);
        law_last_greatest_is_unique(logits, index, other);
    } else {
        assert forall|index: int| !is_last_greatest(logits, index) by {
            if is_last_greatest(logits, index) {
                assert(bits::finite(logits[index]));
            }
        }
    }
}

impl<'a, O: FloatOps> XasrGreedyDecodeBackend for HostXasrGreedyDecodeBackend<'a, O> {
    open spec fn calls(&self) -> CallRecord {
        self.spec_log()
    }

    open spec fn deterministic(&self) -> bool {
        float_ops::functional(self.spec_ops()) && float_ops::sized(self.spec_ops())
    }

    open spec fn model(&self) -> GreedyModel {
        host_model(float_ops::model(self.spec_ops()), self.spec_decoder(), self.spec_joiner())
    }

    open spec fn speculates(&self) -> bool {
        false
    }

    open spec fn blank(&self) -> u32 {
        0
    }

    open spec fn holds_frame(&self, frame: Seq<u32>) -> bool {
        &&& projected_frame(float_ops::model(self.spec_ops()), self.spec_joiner(), frame) == Ok::<
            Seq<u32>,
            Seq<char>,
        >(self.spec_scratch().enc@)
        &&& self.spec_scratch().enc@.len()
            == self.spec_joiner().spec_weights().encoder_proj_weight.output_dim
    }

    open spec fn holds_context(&self, context: Seq<u32>) -> bool {
        projected_context(
            float_ops::model(self.spec_ops()),
            self.spec_decoder(),
            self.spec_joiner(),
            context,
        ) == Ok::<Seq<u32>, Seq<char>>(self.spec_scratch().dec@)
    }

    open spec fn holds_choice(&self, frame: Seq<u32>, context: Seq<u32>) -> bool {
        self.spec_joiner().spec_logits(
            float_ops::model(self.spec_ops()),
            frame,
            self.spec_decoder().decoded(float_ops::model(self.spec_ops()), context),
        ) == Ok::<Seq<u32>, Seq<char>>(self.spec_scratch().logits@)
    }

    fn project_encoder_frame(&mut self, frame: &[u32]) -> (result: Result<(), String>)
        ensures
            final(self).same_model(*old(self)),
            final(self).spec_scratch().dec == old(self).spec_scratch().dec,
    {
        proof {
            use_type_invariant(&*self);
        }
        let mut scratch = self.joiner.scratch();
        std::mem::swap(&mut scratch, &mut self.scratch);
        let result = self.joiner.project_encoder_frame(self.ops, frame, &mut scratch);
        self.scratch = scratch;
        self.log = Ghost(
            self.log@.push(BackendCall::Frame { frame: frame@, answer: answer_view(result) }),
        );
        result
    }

    fn project_decoder_context(&mut self, context: &[u32]) -> (result: Result<(), String>)
        ensures
            final(self).same_model(*old(self)),
            final(self).spec_scratch().enc == old(self).spec_scratch().enc,
    {
        proof {
            use_type_invariant(&*self);
        }
        let decoded = self.decoder.decode_context(self.ops, context);
        let decoder_state = match decoded {
            Ok(state) => state,
            Err(reason) => {
                self.log = Ghost(
                    self.log@.push(
                        BackendCall::Context { context: context@, answer: Err(reason@) },
                    ),
                );
                return Err(reason);
            },
        };
        let mut scratch = self.joiner.scratch();
        std::mem::swap(&mut scratch, &mut self.scratch);
        let result = self.joiner.project_decoder_state(
            self.ops,
            decoder_state.as_slice(),
            &mut scratch,
        );
        self.scratch = scratch;
        self.log = Ghost(
            self.log@.push(BackendCall::Context { context: context@, answer: answer_view(result) }),
        );
        result
    }

    fn next_token(&mut self) -> (result: Result<u32, String>)
        ensures
            final(self).same_model(*old(self)),
            final(self).spec_scratch().enc == old(self).spec_scratch().enc,
            final(self).spec_scratch().dec == old(self).spec_scratch().dec,
            result is Ok ==> exists|index: int|
                #[trigger] is_last_greatest(final(self).spec_scratch().logits@, index)
                    && result->Ok_0 == index as u32,
    {
        proof {
            use_type_invariant(&*self);
        }
        let ghost m = float_ops::model(self.ops);
        let ghost weights = self.joiner.spec_weights();
        let ghost before = self.scratch;
        let mut scratch = self.joiner.scratch();
        std::mem::swap(&mut scratch, &mut self.scratch);
        let computed = self.joiner.logits_from_projected(self.ops, &mut scratch);
        self.scratch = scratch;
        proof {
            if before.enc@.len() == weights.encoder_proj_weight.output_dim {
                lemma_joined_whole(
                    m,
                    weights,
                    before.joined@,
                    zero_seq(weights.encoder_proj_weight.output_dim as nat),
                    before.enc@,
                    before.dec@,
                );
            }
        }
        match computed {
            Ok(_) => {},
            Err(reason) => {
                self.log = Ghost(self.log@.push(BackendCall::Next { answer: Err(reason@) }));
                return Err(reason);
            },
        }
        let best = argmax(self.scratch.logits.as_slice());
        proof {
            lemma_best_of(self.scratch.logits@, best);
        }
        let result = match best {
            Some(token) => Ok(token),
            None => Err(text::copy_text("xasr joiner produced no logits")),
        };
        self.log = Ghost(self.log@.push(BackendCall::Next { answer: answer_view(result) }));
        result
    }

    fn token_probability(&self, token: u32) -> (result: Result<u32, String>)
        ensures
            text_outcome(result, XasrJoiner::probability_refusal(self.spec_scratch(), token)),
    {
        self.joiner.token_probability(self.ops, &self.scratch, token)
    }
}

/// The tokens of an utterance and their text.
#[derive(Clone, Debug, PartialEq)]
pub struct XasrGreedyDecodeResult {
    pub emissions: Emissions,
    /// Number of frames that were searched.
    pub encoder_frames: usize,
    pub text: String,
}

/// Searches frames on the host, going on from a context.
pub fn greedy_decode_frames_incremental<O: FloatOps, C: Fn() -> bool>(
    ops: &O,
    encoder_frames: &[u32],
    frame_count: usize,
    encoder_dim: usize,
    decoder: &XasrDecoder,
    joiner: &XasrJoiner,
    blank_id: u32,
    max_symbols_per_frame: usize,
    context: &mut Vec<u32>,
    emissions: &mut Emissions,
    frame_offset: usize,
    is_canceled: &C,
) -> (result: Result<usize, String>)
    requires
        decoder.complete(),
        old(context)@.len() > 0 || frame_count == 0 || max_symbols_per_frame == 0,
        frame_offset + frame_count <= usize::MAX,
        call_requires(is_canceled, ()),
    ensures
        final(emissions).extends(*old(emissions)),
        frames_refusal(encoder_frames@.len() as int, frame_count, encoder_dim) is Some ==> {
            &&& text_outcome(
                result,
                frames_refusal(encoder_frames@.len() as int, frame_count, encoder_dim),
            )
            &&& *final(emissions) == *old(emissions)
            &&& final(context)@ == old(context)@
        },
        frames_refusal(encoder_frames@.len() as int, frame_count, encoder_dim) is None
            && frame_count == 0 ==> result is Ok,
        result is Ok && frame_count > 0 ==> call_ensures(is_canceled, (), false),
        frames_refusal(encoder_frames@.len() as int, frame_count, encoder_dim) is None
            && frame_count > 0 && !call_ensures(is_canceled, (), false) ==> {
            &&& result is Err
            &&& result->Err_0@ == "xasr-zipformer decode canceled at encoder frame "@ + decimal(0)
            &&& *final(emissions) == *old(emissions)
            &&& final(context)@ == old(context)@
        },
        frames_refusal(encoder_frames@.len() as int, frame_count, encoder_dim) is None ==> exists|
            calls: Seq<BackendCall>,
        |
            #[trigger] search_ended::<HostXasrGreedyDecodeBackend<'_, O>>(
                (SearchTask {
                    frames: encoder_frames@,
                    count: frame_count,
                    dim: encoder_dim,
                    blank: blank_id,
                    limit: max_symbols_per_frame,
                    offset: frame_offset,
                }),
                old(context)@,
                Seq::<BackendCall>::empty(),
                calls,
                final(emissions).since(*old(emissions)),
                final(context)@,
                call_ensures(is_canceled, (), true),
                result,
            ),
        result is Ok ==> {
            &&& result->Ok_0 == final(emissions).token_ids@.len() - old(emissions).token_ids@.len()
            &&& found::<HostXasrGreedyDecodeBackend<'_, O>>(
                final(emissions).since(*old(emissions)),
                old(context)@,
                final(context)@,
                blank_id,
                max_symbols_per_frame,
                frame_offset as int,
                frame_offset + frame_count,
            )
        },
        float_ops::functional(ops) && float_ops::sized(ops) && frames_refusal(
            encoder_frames@.len() as int,
            frame_count,
            encoder_dim,
        ) is None ==> (match searched(
            host_model(float_ops::model(ops), *decoder, *joiner),
            encoder_frames@,
            encoder_dim as int,
            frame_offset as int,
            blank_id,
            max_symbols_per_frame,
            old(emissions).state(old(context)@),
            frame_count as int,
        ) {
            Ok(state) => {
                &&& result is Ok ==> final(emissions).state(final(context)@) == state
                &&& never_cancels(*is_canceled) ==> result is Ok
            },
            Err(reason) => {
                &&& result is Err
                &&& never_cancels(*is_canceled) ==> result->Err_0@ == reason
            },
        }),
{
    let mut backend = HostXasrGreedyDecodeBackend::new(ops, decoder, joiner);
    greedy_decode_frames_incremental_with_backend(
        encoder_frames,
        frame_count,
        encoder_dim,
        &mut backend,
        blank_id,
        max_symbols_per_frame,
        context,
        emissions,
        frame_offset,
        is_canceled,
    )
}

fn never() -> (result: bool)
    ensures
        !result,
{
    false
}

/// The tokens have no text, for this reason.
pub open spec fn has_no_text<D: Fn(&Vec<u32>) -> Result<String, String>>(
    decode_tokens: &D,
    tokens: Seq<u32>,
    reason: String,
) -> bool {
    exists|ids: &Vec<u32>|
        ids@ == tokens && #[trigger] call_ensures(
            decode_tokens,
            (ids,),
            Err::<String, String>(reason),
        )
}

/// Searches an utterance on the host with a limit of tokens at each frame.
pub fn greedy_decode_frames_with_limit<
    O: FloatOps,
    D: Fn(&Vec<u32>) -> Result<String, String>,
>(
    ops: &O,
    encoder_frames: &[u32],
    frame_count: usize,
    encoder_dim: usize,
    decoder: &XasrDecoder,
    joiner: &XasrJoiner,
    decode_tokens: &D,
    blank_id: u32,
    max_symbols_per_frame: usize,
) -> (result: Result<XasrGreedyDecodeResult, String>)
    requires
        decoder.complete(),
        decoder.spec_context_size() > 0 || frame_count == 0 || max_symbols_per_frame == 0,
        forall|ids: &Vec<u32>| call_requires(decode_tokens, (ids,)),
    ensures
        frames_refusal(encoder_frames@.len() as int, frame_count, encoder_dim) is Some
            ==> text_outcome(
            result,
            frames_refusal(encoder_frames@.len() as int, frame_count, encoder_dim),
        ),
        result is Ok ==> {
            let decoded = result->Ok_0;
            &&& decoded.encoder_frames == frame_count
            &&& call_ensures(
                decode_tokens,
                (&decoded.emissions.token_ids,),
                Ok::<String, String>(decoded.text),
            )
            &&& exists|context: Seq<u32>|
                #[trigger] found::<HostXasrGreedyDecodeBackend<'_, O>>(
                    decoded.emissions.all(),
                    decoder.spec_initial_context(),
                    context,
                    blank_id,
                    max_symbols_per_frame,
                    0,
                    frame_count as int,
                )
        },
        float_ops::functional(ops) && float_ops::sized(ops) && frames_refusal(
            encoder_frames@.len() as int,
            frame_count,
            encoder_dim,
        ) is None ==> (match searched(
            host_model(float_ops::model(ops), *decoder, *joiner),
            encoder_frames@,
            encoder_dim as int,
            0,
            blank_id,
            max_symbols_per_frame,
            SearchState::beginning(decoder.spec_initial_context()),
            frame_count as int,
        ) {
            Ok(state) => match result {
                Ok(decoded) => decoded.emissions.state(state.context) == state,
                Err(reason) => has_no_text(decode_tokens, state.tokens, reason),
            },
            Err(reason) => result is Err && result->Err_0@ == reason,
        }),
{
    let mut context = decoder.initial_context();
    let mut emissions = Emissions {
        token_ids: Vec::new(),
        emit_frames: Vec::new(),
        emit_probabilities: Vec::new(),
    };
    proof {
        let start = SearchState::beginning(decoder.spec_initial_context());
        assert(emissions.token_ids@ =~= start.tokens);
        assert(emissions.emit_frames@ =~= start.frames);
        assert(emissions.emit_probabilities@ =~= start.probabilities);
    }
    let ghost nothing = emissions;
    greedy_decode_frames_incremental(
        ops,
        encoder_frames,
        frame_count,
        encoder_dim,
        decoder,
        joiner,
        blank_id,
        max_symbols_per_frame,
        &mut context,
        &mut emissions,
        0,
        &never,
    )?;
    proof {
        let new = emissions.since(nothing);
        assert(new.tokens =~= emissions.token_ids@);
        assert(new.frames =~= emissions.emit_frames@);
        assert(new.probabilities =~= emissions.emit_probabilities@);
        assert(new == emissions.all());
    }
    let decoded = decode_tokens(&emissions.token_ids);
    assert(call_ensures(decode_tokens, (&emissions.token_ids,), decoded));
    let text = match decoded {
        Ok(text) => text,
        Err(reason) => {
            assert(has_no_text(decode_tokens, emissions.token_ids@, reason));
            return Err(reason);
        },
    };
    Ok(XasrGreedyDecodeResult { emissions, encoder_frames: frame_count, text })
}

/// Searches an utterance on the host.
pub fn greedy_decode_frames<O: FloatOps, D: Fn(&Vec<u32>) -> Result<String, String>>(
    ops: &O,
    encoder_frames: &[u32],
    frame_count: usize,
    encoder_dim: usize,
    decoder: &XasrDecoder,
    joiner: &XasrJoiner,
    decode_tokens: &D,
    blank_id: u32,
) -> (result: Result<XasrGreedyDecodeResult, String>)
    requires
        decoder.complete(),
        decoder.spec_context_size() > 0 || frame_count == 0,
        forall|ids: &Vec<u32>| call_requires(decode_tokens, (ids,)),
    ensures
        frames_refusal(encoder_frames@.len() as int, frame_count, encoder_dim) is Some
            ==> text_outcome(
            result,
            frames_refusal(encoder_frames@.len() as int, frame_count, encoder_dim),
        ),
        result is Ok ==> {
            let decoded = result->Ok_0;
            &&& decoded.encoder_frames == frame_count
            &&& call_ensures(
                decode_tokens,
                (&decoded.emissions.token_ids,),
                Ok::<String, String>(decoded.text),
            )
            &&& exists|context: Seq<u32>|
                #[trigger] found::<HostXasrGreedyDecodeBackend<'_, O>>(
                    decoded.emissions.all(),
                    decoder.spec_initial_context(),
                    context,
                    blank_id,
                    DEFAULT_MAX_SYMBOLS_PER_FRAME,
                    0,
                    frame_count as int,
                )
        },
        float_ops::functional(ops) && float_ops::sized(ops) && frames_refusal(
            encoder_frames@.len() as int,
            frame_count,
            encoder_dim,
        ) is None ==> (match searched(
            host_model(float_ops::model(ops), *decoder, *joiner),
            encoder_frames@,
            encoder_dim as int,
            0,
            blank_id,
            DEFAULT_MAX_SYMBOLS_PER_FRAME,
            SearchState::beginning(decoder.spec_initial_context()),
            frame_count as int,
        ) {
            Ok(state) => match result {
                Ok(decoded) => decoded.emissions.state(state.context) == state,
                Err(reason) => has_no_text(decode_tokens, state.tokens, reason),
            },
            Err(reason) => result is Err && result->Err_0@ == reason,
        }),
{
    greedy_decode_frames_with_limit(
        ops,
        encoder_frames,
        frame_count,
        encoder_dim,
        decoder,
        joiner,
        decode_tokens,
        blank_id,
        DEFAULT_MAX_SYMBOLS_PER_FRAME,
    )
}

} // verus!
