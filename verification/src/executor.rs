//! From a decoded utterance to a transcription, and which requests are taken.

use vstd::prelude::*;
use vstd::string::StringExecFns;
use crate::bits::{INFINITY_BITS, ZERO_BITS};
use crate::decoder::text_outcome;
use crate::float_ops;
use crate::float_ops::{FloatModel, FloatOps};
use crate::frontend;
use crate::greedy::XasrGreedyDecodeResult;
use crate::text;

verus! {

/// The pattern of 16000: samples in a second.
pub const SAMPLE_RATE_BITS: u32 = 0x467a_0000;

/// The pattern of 0.8: seconds of silence that follow an utterance.
pub const TAIL_PAD_SECONDS_BITS: u32 = 0x3f4c_cccd;

/// A word, when it is spoken, and how sure it is.
#[derive(Clone, Debug, PartialEq)]
pub struct WordTimestamp {
    pub word: String,
    pub start: u32,
    pub end: u32,
    pub confidence: Option<u32>,
}

/// The text of an utterance and its words.
#[derive(Clone, Debug, PartialEq)]
pub struct XasrZipformerTranscription {
    pub text: String,
    pub words: Vec<WordTimestamp>,
}

/// A part of a transcription.
#[derive(Debug)]
pub struct Segment {
    pub start: u32,
    pub end: u32,
    pub text: String,
    pub words: Vec<WordTimestamp>,
}

/// Seconds of samples.
pub open spec fn duration_of(m: FloatModel, samples: int) -> u32 {
    (m.div)((m.from_count)(samples), SAMPLE_RATE_BITS)
}

/// Seconds of samples.
pub fn pcm_duration_seconds<O: FloatOps>(ops: &O, samples: &[u32]) -> (seconds: u32)
    ensures
        float_ops::functional(ops) ==> seconds == duration_of(
            float_ops::model(ops),
            samples@.len() as int,
        ),
{
    let count = ops.from_count(samples.len());
    ops.div(count, SAMPLE_RATE_BITS)
}

/// The duration with the silence that follows, where there is any sound.
pub open spec fn padded_duration(m: FloatModel, duration: u32) -> u32 {
    if frontend::positive(duration) {
        (m.add)(duration, TAIL_PAD_SECONDS_BITS)
    } else {
        duration
    }
}

/// `words` with no time beyond the end of the utterance.
pub open spec fn clamped(
    m: FloatModel,
    words: Seq<WordTimestamp>,
    after: Seq<WordTimestamp>,
    duration: u32,
) -> bool {
    &&& after.len() == words.len()
    &&& forall|i: int|
        0 <= i < words.len() ==> {
            let word = #[trigger] after[i];
            &&& word.word == words[i].word
            &&& word.confidence == words[i].confidence
            &&& word.start == (m.min)(words[i].start, duration)
            &&& word.end == (m.min)(words[i].end, duration)
        }
}

/// The words are the same, whatever their times.
pub open spec fn same_words(before: Seq<WordTimestamp>, after: Seq<WordTimestamp>) -> bool {
    &&& after.len() == before.len()
    &&& forall|j: int|
        0 <= j < after.len() ==> (#[trigger] after[j]).word == before[j].word
            && after[j].confidence == before[j].confidence
}

/// The text of an utterance, and its words where they are asked for.  `timed`
/// gives words their times from the frames of the padded utterance; a token of
/// the padding ends with the utterance.
#[verifier::spinoff_prover]
pub fn transcription_from_decode<
    O: FloatOps,
    T: Fn(&XasrGreedyDecodeResult, u32) -> Result<Vec<WordTimestamp>, String>,
>(
    ops: &O,
    timed: &T,
    result: XasrGreedyDecodeResult,
    word_timestamps: bool,
    duration_seconds: u32,
) -> (transcription: Result<XasrZipformerTranscription, String>)
    requires
        word_timestamps ==> forall|duration: u32| call_requires(timed, (&result, duration)),
    ensures
        !word_timestamps ==> {
            &&& transcription is Ok
            &&& transcription->Ok_0.text == result.text
            &&& transcription->Ok_0.words@.len() == 0
        },
        word_timestamps ==> exists|padded: u32, words: Result<Vec<WordTimestamp>, String>|
            #[trigger] call_ensures(timed, (&result, padded), words) && (match words {
                Ok(found) => {
                    &&& transcription is Ok
                    &&& transcription->Ok_0.text == result.text
                    &&& same_words(found@, transcription->Ok_0.words@)
                },
                Err(reason) => transcription == Err::<XasrZipformerTranscription, String>(reason),
            }),
        word_timestamps && float_ops::functional(ops) ==> exists|
            words: Result<Vec<WordTimestamp>, String>,
        |
            #[trigger] call_ensures(
                timed,
                (&result, padded_duration(float_ops::model(ops), duration_seconds)),
                words,
            ) && (match words {
                Ok(found) => {
                    &&& transcription is Ok
                    &&& transcription->Ok_0.text == result.text
                    &&& clamped(
                        float_ops::model(ops),
                        found@,
                        transcription->Ok_0.words@,
                        duration_seconds,
                    )
                },
                Err(reason) => transcription == Err::<XasrZipformerTranscription, String>(reason),
            }),
{
    if !word_timestamps {
        return Ok(XasrZipformerTranscription { text: result.text, words: Vec::new() });
    }
    let padded = if 0 < duration_seconds && duration_seconds <= INFINITY_BITS {
        ops.add(duration_seconds, TAIL_PAD_SECONDS_BITS)
    } else {
        duration_seconds
    };
    let found = timed(&result, padded);
    assert(call_ensures(timed, (&result, padded), found));
    let mut words = found?;
    let ghost before = words@;
    let mut i: usize = 0;
    while i < words.len()
        invariant
            i <= words@.len(),
            words@.len() == before.len(),
            forall|j: int| i <= j < words@.len() ==> #[trigger] words@[j] == before[j],
            forall|j: int|
                0 <= j < i ==> {
                    let word = #[trigger] words@[j];
                    &&& word.word == before[j].word
                    &&& word.confidence == before[j].confidence
                    &&& float_ops::functional(ops) ==> word.start == (float_ops::model(ops).min)(
                        before[j].start,
                        duration_seconds,
                    ) && word.end == (float_ops::model(ops).min)(
                        before[j].end,
                        duration_seconds,
                    )
                },
        decreases words@.len() - i,
    {
        let start = ops.min(words[i].start, duration_seconds);
        let end = ops.min(words[i].end, duration_seconds);
        let word = &mut words[i];
        word.start = start;
        word.end = end;
        i = i + 1;
    }
    Ok(XasrZipformerTranscription { text: result.text, words })
}

/// The segments of a transcription: one from its beginning to its end, unless
/// there is no text.
pub fn segments_from(output: XasrZipformerTranscription, duration_seconds: u32) -> (segments: Vec<
    Segment,
>)
    ensures
        output.text@.len() == 0 ==> segments@.len() == 0,
        output.text@.len() > 0 ==> {
            &&& segments@.len() == 1
            &&& segments@[0].start == ZERO_BITS
            &&& segments@[0].end == duration_seconds
            &&& segments@[0].text == output.text
            &&& segments@[0].words == output.words
        },
{
    let mut segments: Vec<Segment> = Vec::new();
    if !output.text.as_str().is_empty() {
        segments.push(
            Segment {
                start: ZERO_BITS,
                end: duration_seconds,
                text: output.text,
                words: output.words,
            },
        );
    }
    segments
}

/// Refuses phrase biases, which the decoder does not know.
pub fn check_phrase_bias(present: bool) -> (result: Result<(), String>)
    ensures
        text_outcome(
            result,
            if present {
                Some("xasr-zipformer phrase bias is not supported"@)
            } else {
                None
            },
        ),
{
    if present {
        return Err(text::copy_text("xasr-zipformer phrase bias is not supported"));
    }
    Ok(())
}

/// Refuses streaming requests for another adapter.
pub fn check_streaming_adapter(expected: &str, requested: &str) -> (result: Result<(), String>)
    ensures
        text_outcome(
            result,
            if requested@ != expected@ {
                Some(
                    "xasr-zipformer streaming executor requires adapter '"@ + expected@ + "', got '"@
                        + requested@ + "'"@,
                )
            } else {
                None
            },
        ),
{
    let expected_text = text::copy_text(expected);
    let requested_text = text::copy_text(requested);
    if requested_text == expected_text {
        return Ok(());
    }
    let mut reason = text::copy_text("xasr-zipformer streaming executor requires adapter '");
    reason.append(expected);
    reason.append("', got '");
    reason.append(requested);
    reason.append("'");
    Err(reason)
}

/// The names of the utterance and segment of a streaming session.
pub fn session_names(session_id: &str) -> (names: (String, String))
    ensures
        names.0@ == "utt_"@ + session_id@,
        names.1@ == "seg_"@ + session_id@,
{
    let mut utterance = text::copy_text("utt_");
    utterance.append(session_id);
    let mut segment = text::copy_text("seg_");
    segment.append(session_id);
    (utterance, segment)
}

} // verus!
