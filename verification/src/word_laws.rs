//! What becomes of the times of words.

use vstd::prelude::*;
use crate::bits::{nan, total_order_key};
use crate::executor::{clamped, duration_of, padded_duration, WordTimestamp};
use crate::float_ops::FloatModel;

verus! {

/// Of two numbers the operation gives the smaller.
pub open spec fn gives_the_smaller(m: FloatModel) -> bool {
    forall|a: u32, b: u32|
        !nan(a) && !nan(b) ==> #[trigger] (m.min)(a, b) == if total_order_key(a)
            <= total_order_key(b) {
            a
        } else {
            b
        }
}

/// One time is not after another.
pub open spec fn not_after(a: u32, b: u32) -> bool {
    total_order_key(a) <= total_order_key(b)
}

/// Words inside the utterance keep their times, and what lies beyond its end ends with it.
/// No word is lost, and each keeps its text and how sure it is.
pub proof fn law_words_inside_the_utterance_keep_their_times(
    m: FloatModel,
    words: Seq<WordTimestamp>,
    after: Seq<WordTimestamp>,
    duration: u32,
    i: int,
)
    requires
        gives_the_smaller(m),
        clamped(m, words, after, duration),
        0 <= i < words.len(),
        !nan(words[i].start),
        !nan(words[i].end),
        !nan(duration),
    ensures
        after.len() == words.len(),
        after[i].word == words[i].word,
        after[i].confidence == words[i].confidence,
        not_after(words[i].start, duration) ==> after[i].start == words[i].start,
        not_after(words[i].end, duration) ==> after[i].end == words[i].end,
        !not_after(words[i].start, duration) ==> after[i].start == duration,
        !not_after(words[i].end, duration) ==> after[i].end == duration,
        not_after(after[i].start, duration),
        not_after(after[i].end, duration),
        not_after(words[i].start, words[i].end) ==> not_after(after[i].start, after[i].end),
{
    assert(after[i].word == words[i].word);
    assert((m.min)(words[i].start, duration) == after[i].start);
    assert((m.min)(words[i].end, duration) == after[i].end);
}

/// A time depends on that time of its word and on the length of the utterance alone: equal
/// times come out equal, wherever they stand and whatever stands beside them.
pub proof fn law_each_time_stands_for_itself(
    m: FloatModel,
    words: Seq<WordTimestamp>,
    after: Seq<WordTimestamp>,
    others: Seq<WordTimestamp>,
    others_after: Seq<WordTimestamp>,
    duration: u32,
    i: int,
    j: int,
)
    requires
        clamped(m, words, after, duration),
        clamped(m, others, others_after, duration),
        0 <= i < words.len(),
        0 <= j < others.len(),
    ensures
        words[i].start == others[j].start ==> after[i].start == others_after[j].start,
        words[i].end == others[j].end ==> after[i].end == others_after[j].end,
        words[i].start == others[j].end ==> after[i].start == others_after[j].end,
{
    assert(after[i].word == words[i].word);
    assert(others_after[j].word == others[j].word);
}

/// Words stay in order: a word that starts after another has ended still does not start
/// before that.
pub proof fn law_words_stay_in_order(
    m: FloatModel,
    words: Seq<WordTimestamp>,
    after: Seq<WordTimestamp>,
    duration: u32,
    i: int,
    j: int,
)
    requires
        gives_the_smaller(m),
        clamped(m, words, after, duration),
        0 <= i < words.len(),
        0 <= j < words.len(),
        !nan(words[i].end),
        !nan(words[j].start),
        !nan(duration),
        not_after(words[i].end, words[j].start),
    ensures
        not_after(after[i].end, after[j].start),
{
    assert(after[i].word == words[i].word);
    assert(after[j].word == words[j].word);
    assert((m.min)(words[i].end, duration) == after[i].end);
    assert((m.min)(words[j].start, duration) == after[j].start);
}

/// Words are timed over the sound and the 0.8 seconds of silence that follow it; where there
/// is no sound nothing follows.  A second of sound is 16000 samples.
pub proof fn law_silence_follows_sound(m: FloatModel, samples: int, duration: u32)
    ensures
        duration_of(m, samples) == (m.div)((m.from_count)(samples), 0x467a_0000),
        0 < duration <= 0x7f80_0000 ==> padded_duration(m, duration) == (m.add)(
            duration,
            0x3f4c_cccd,
        ),
        !(0 < duration <= 0x7f80_0000) ==> padded_duration(m, duration) == duration,
{
}

} // verus!
