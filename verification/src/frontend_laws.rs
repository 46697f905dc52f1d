//! What the features of frames promise across calls.

use vstd::prelude::*;
use crate::float_ops;
use crate::float_ops::{FloatModel, FloatOps};
use crate::frontend::{
    clean_count, first_sample, frame_count, law_clean_frames_are_frames,
    law_clean_frames_are_stable, law_clean_frames_read_only_real_samples,
    law_drained_samples_stay_unneeded, law_frames_only_grow, law_reflection_stays_in_bounds,
    reflected, XasrFbankFeatures, XasrFbankFrontend, XasrFrontendError, FFT_BINS, FRAME_LENGTH,
    XASR_N_MELS,
};
use crate::rows::{joined, lemma_joined_at, lemma_joined_len, part_of};

verus! {

/// The samples that a frame reads, all of them present.
pub open spec fn taps_present(samples: int, sample_offset: int, total: int, frame: int) -> bool {
    forall|tap: int|
        0 <= tap < FRAME_LENGTH ==> sample_offset <= #[trigger] reflected(
            total,
            frame * 160 - 120 + tap,
        ) < sample_offset + samples
}

/// The samples that a frame reads.
pub open spec fn taps(
    samples: Seq<u32>,
    sample_offset: int,
    total: int,
    frame: int,
) -> Seq<u32> {
    Seq::new(
        FRAME_LENGTH as nat,
        |tap: int| samples[reflected(total, frame * 160 - 120 + tap) - sample_offset],
    )
}

/// The spectrum of a frame is a function of the samples that it reads, and only a frame
/// that misses one of them has none.
pub open spec fn framewise<
    S: Fn(&[u32], usize, usize, usize, usize) -> Result<Vec<u32>, usize>,
>(spectra: &S, spectrum: spec_fn(Seq<u32>) -> Seq<u32>) -> bool {
    &&& forall|
        samples: &[u32],
        sample_offset: usize,
        total: usize,
        start: usize,
        end: usize,
        power: Vec<u32>,
        frame: int,
    |
        #![trigger call_ensures(
            spectra,
            (samples, sample_offset, total, start, end),
            Ok::<Vec<u32>, usize>(power),
        ), spectrum(taps(samples@, sample_offset as int, total as int, frame))]
        call_ensures(
            spectra,
            (samples, sample_offset, total, start, end),
            Ok::<Vec<u32>, usize>(power),
        ) && start <= frame < end ==> {
            &&& taps_present(samples@.len() as int, sample_offset as int, total as int, frame)
            &&& part_of(power@, FFT_BINS as int, frame - start) == spectrum(
                taps(samples@, sample_offset as int, total as int, frame),
            )
        }
    &&& forall|
        samples: &[u32],
        sample_offset: usize,
        total: usize,
        start: usize,
        end: usize,
        frame: usize,
    |
        #[trigger] call_ensures(
            spectra,
            (samples, sample_offset, total, start, end),
            Err::<Vec<u32>, usize>(frame),
        ) ==> start <= frame < end && !taps_present(
            samples@.len() as int,
            sample_offset as int,
            total as int,
            frame as int,
        )
}

/// Every frame of a range has the samples that it reads.
pub open spec fn range_present(
    samples: int,
    sample_offset: int,
    total: int,
    start: int,
    end: int,
) -> bool {
    forall|frame: int|
        start <= frame < end ==> #[trigger] taps_present(samples, sample_offset, total, frame)
}

/// A range whose samples are there has features, and one that has features has its samples.
proof fn lemma_range_succeeds<
    O: FloatOps,
    S: Fn(&[u32], usize, usize, usize, usize) -> Result<Vec<u32>, usize>,
>(
    frontend: XasrFbankFrontend,
    ops: &O,
    spectra: &S,
    spectrum: spec_fn(Seq<u32>) -> Seq<u32>,
    samples: &[u32],
    sample_offset: usize,
    start: usize,
    end: usize,
    result: Result<Vec<u32>, XasrFrontendError>,
)
    requires
        framewise(spectra, spectrum),
        XasrFbankFrontend::range_refusal(
            samples@.len() as int,
            sample_offset,
            start,
            end,
        ) is None,
        frontend.range_outcome(ops, spectra, samples, sample_offset, start, end, result),
    ensures
        result is Ok <==> range_present(
            samples@.len() as int,
            sample_offset as int,
            sample_offset + samples@.len(),
            start as int,
            end as int,
        ),
        result is Err ==> exists|frame: usize|
            start <= frame < end && !(#[trigger] taps_present(
                samples@.len() as int,
                sample_offset as int,
                sample_offset + samples@.len(),
                frame as int,
            )) && result->Err_0 == (XasrFrontendError::MissingPrefix { frame }),
{
    let total = (sample_offset + samples@.len()) as usize;
    let answer = choose|answer: Result<Vec<u32>, usize>|
        #[trigger] call_ensures(spectra, (samples, sample_offset, total, start, end), answer) && (
        match answer {
            Ok(power) => {
                &&& result is Ok
                &&& result->Ok_0@.len() == (end - start) * XASR_N_MELS
                &&& float_ops::functional(ops) ==> result->Ok_0@ == frontend.frame_rows(
                    float_ops::model(ops),
                    power@,
                    end - start,
                )
            },
            Err(frame) => result == Err::<Vec<u32>, XasrFrontendError>(
                XasrFrontendError::MissingPrefix { frame },
            ),
        });
    match answer {
        Ok(power) => {
            assert forall|frame: int| start <= frame < end implies #[trigger] taps_present(
                samples@.len() as int,
                sample_offset as int,
                total as int,
                frame,
            ) by {
                let read = taps(samples@, sample_offset as int, total as int, frame);
                assert(call_ensures(
                    spectra,
                    (samples, sample_offset, total, start, end),
                    Ok::<Vec<u32>, usize>(power),
                ));
                assert(part_of(power@, FFT_BINS as int, frame - start) == spectrum(read));
            }
        },
        Err(frame) => {
            assert(call_ensures(
                spectra,
                (samples, sample_offset, total, start, end),
                Err::<Vec<u32>, usize>(frame),
            ));
            assert(!taps_present(
                samples@.len() as int,
                sample_offset as int,
                total as int,
                frame as int,
            ));
        },
    }
}

/// A stream of which nothing was dropped has all samples that its frames read.
proof fn lemma_whole_stream_present(samples: int, start: int, end: int)
    requires
        0 < samples,
    ensures
        range_present(samples, 0, samples, start, end),
{
    assert forall|frame: int| start <= frame < end implies #[trigger] taps_present(
        samples,
        0,
        samples,
        frame,
    ) by {
        assert forall|tap: int| 0 <= tap < FRAME_LENGTH implies 0 <= #[trigger] reflected(
            samples,
            frame * 160 - 120 + tap,
        ) < samples by {
            law_reflection_stays_in_bounds(samples, frame * 160 - 120 + tap);
        }
    }
}

/// The features of a frame that reads these samples.
spec fn frame_features(
    frontend: XasrFbankFrontend,
    m: FloatModel,
    spectrum: spec_fn(Seq<u32>) -> Seq<u32>,
    read: Seq<u32>,
) -> Seq<u32> {
    frontend.frame_row(m, spectrum(read))
}

proof fn lemma_row_of_rows(
    frontend: XasrFbankFrontend,
    m: FloatModel,
    power: Seq<u32>,
    frames: int,
    t: int,
    mel: int,
)
    requires
        0 <= t < frames,
        0 <= mel < XASR_N_MELS,
    ensures
        frontend.frame_rows(m, power, frames).len() == frames * XASR_N_MELS,
        frontend.frame_rows(m, power, frames)[t * XASR_N_MELS + mel] == frontend.frame_row(
            m,
            part_of(power, FFT_BINS as int, t),
        )[mel],
{
    let row = |i: int| frontend.frame_row(m, part_of(power, FFT_BINS as int, i));
    assert forall|i: int| 0 <= i < frames implies (#[trigger] row(i)).len() == XASR_N_MELS by {}
    lemma_joined_len(frames, row, XASR_N_MELS as int);
    lemma_joined_at(frames, row, XASR_N_MELS as int, t, mel);
    assert(frontend.frame_rows(m, power, frames) == joined(frames, row));
}

/// One feature of a range.
proof fn lemma_range_at<
    O: FloatOps,
    S: Fn(&[u32], usize, usize, usize, usize) -> Result<Vec<u32>, usize>,
>(
    frontend: XasrFbankFrontend,
    ops: &O,
    spectra: &S,
    spectrum: spec_fn(Seq<u32>) -> Seq<u32>,
    samples: &[u32],
    sample_offset: usize,
    start: usize,
    end: usize,
    range: Vec<u32>,
    t: int,
    mel: int,
)
    requires
        float_ops::functional(ops),
        framewise(spectra, spectrum),
        frontend.range_outcome(
            ops,
            spectra,
            samples,
            sample_offset,
            start,
            end,
            Ok::<Vec<u32>, XasrFrontendError>(range),
        ),
        0 <= t < end - start,
        0 <= mel < XASR_N_MELS,
    ensures
        sample_offset + samples@.len() <= usize::MAX,
        range@.len() == (end - start) * XASR_N_MELS,
        taps_present(
            samples@.len() as int,
            sample_offset as int,
            sample_offset + samples@.len(),
            start + t,
        ),
        range@[t * XASR_N_MELS + mel] == frame_features(
            frontend,
            float_ops::model(ops),
            spectrum,
            taps(samples@, sample_offset as int, sample_offset + samples@.len(), start + t),
        )[mel],
{
    let total = (sample_offset + samples@.len()) as usize;
    let answer = choose|answer: Result<Vec<u32>, usize>|
        #[trigger] call_ensures(spectra, (samples, sample_offset, total, start, end), answer) && (
        match answer {
            Ok(power) => {
                &&& range@.len() == (end - start) * XASR_N_MELS
                &&& range@ == frontend.frame_rows(float_ops::model(ops), power@, end - start)
            },
            Err(frame) => false,
        });
    let power = answer->Ok_0;
    assert(call_ensures(
        spectra,
        (samples, sample_offset, total, start, end),
        Ok::<Vec<u32>, usize>(power),
    ));
    let read = taps(samples@, sample_offset as int, total as int, start + t);
    assert(part_of(power@, FFT_BINS as int, start + t - start) == spectrum(read));
    lemma_row_of_rows(frontend, float_ops::model(ops), power@, end - start, t, mel);
}

/// The features of a range of an utterance's frames are those that the frames have among
/// all frames, and neither fails.
pub proof fn law_frame_ranges_are_parts_of_all_features<
    O: FloatOps,
    S: Fn(&[u32], usize, usize, usize, usize) -> Result<Vec<u32>, usize>,
>(
    frontend: XasrFbankFrontend,
    ops: &O,
    spectra: &S,
    spectrum: spec_fn(Seq<u32>) -> Seq<u32>,
    samples: &[u32],
    start: usize,
    end: usize,
    all: Result<XasrFbankFeatures, XasrFrontendError>,
    range: Result<Vec<u32>, XasrFrontendError>,
)
    requires
        float_ops::functional(ops),
        framewise(spectra, spectrum),
        XasrFbankFrontend::samples_refusal(samples@) is None,
        samples@.len() <= usize::MAX,
        start <= end <= frame_count(samples@.len() as int),
        frontend.features_outcome(ops, spectra, samples, all),
        frontend.range_outcome(ops, spectra, samples, 0, start, end, range),
    ensures
        all is Ok,
        all->Ok_0.n_frames == frame_count(samples@.len() as int),
        range is Ok,
        range->Ok_0@ == all->Ok_0.data@.subrange(start * XASR_N_MELS, end * XASR_N_MELS),
{
    let mels = XASR_N_MELS as int;
    let n = frame_count(samples@.len() as int) as usize;
    let data = match all {
        Ok(features) => Ok::<Vec<u32>, XasrFrontendError>(features.data),
        Err(error) => Err::<Vec<u32>, XasrFrontendError>(error),
    };
    assert(frontend.range_outcome(ops, spectra, samples, 0, 0, n, data));
    lemma_whole_stream_present(samples@.len() as int, 0, n as int);
    lemma_whole_stream_present(samples@.len() as int, start as int, end as int);
    lemma_range_succeeds(frontend, ops, spectra, spectrum, samples, 0, 0, n, data);
    lemma_range_succeeds(frontend, ops, spectra, spectrum, samples, 0, start, end, range);
    let part = range->Ok_0;
    let whole = data->Ok_0;
    assert(part@.len() == (end - start) * mels);
    assert(whole@.len() == n * mels);
    assert forall|i: int| 0 <= i < part@.len() implies part@[i] == whole@[start * mels + i] by {
        let t = i / mels;
        let mel = i % mels;
        lemma_range_at(frontend, ops, spectra, spectrum, samples, 0, start, end, part, t, mel);
        lemma_range_at(frontend, ops, spectra, spectrum, samples, 0, 0, n, whole, start + t, mel);
    }
    assert(part@ =~= whole@.subrange(start * mels, end * mels));
}

/// Two ranges that meet have together the features of the range that they make up.
pub proof fn law_frame_ranges_join<
    O: FloatOps,
    S: Fn(&[u32], usize, usize, usize, usize) -> Result<Vec<u32>, usize>,
>(
    frontend: XasrFbankFrontend,
    ops: &O,
    spectra: &S,
    spectrum: spec_fn(Seq<u32>) -> Seq<u32>,
    samples: &[u32],
    split: usize,
    all: Result<XasrFbankFeatures, XasrFrontendError>,
    left: Result<Vec<u32>, XasrFrontendError>,
    right: Result<Vec<u32>, XasrFrontendError>,
)
    requires
        float_ops::functional(ops),
        framewise(spectra, spectrum),
        XasrFbankFrontend::samples_refusal(samples@) is None,
        samples@.len() <= usize::MAX,
        split <= frame_count(samples@.len() as int),
        frontend.features_outcome(ops, spectra, samples, all),
        frontend.range_outcome(ops, spectra, samples, 0, 0, split, left),
        frontend.range_outcome(
            ops,
            spectra,
            samples,
            0,
            split,
            frame_count(samples@.len() as int) as usize,
            right,
        ),
    ensures
        all is Ok,
        left is Ok,
        right is Ok,
        left->Ok_0@ + right->Ok_0@ == all->Ok_0.data@,
{
    let n = frame_count(samples@.len() as int) as usize;
    law_frame_ranges_are_parts_of_all_features(
        frontend,
        ops,
        spectra,
        spectrum,
        samples,
        0,
        split,
        all,
        left,
    );
    law_frame_ranges_are_parts_of_all_features(
        frontend,
        ops,
        spectra,
        spectrum,
        samples,
        split,
        n,
        all,
        right,
    );
    assert(left->Ok_0@ + right->Ok_0@ =~= all->Ok_0.data@);
}

/// A stream whose first samples were dropped has the features of the whole stream for the
/// frames whose samples are left, clean frames among them that start no earlier than what
/// is left, and refuses others, naming a frame that misses a sample: the first of the range
/// where it starts too early.
pub proof fn law_drained_streams_have_the_same_features<
    O: FloatOps,
    S: Fn(&[u32], usize, usize, usize, usize) -> Result<Vec<u32>, usize>,
>(
    frontend: XasrFbankFrontend,
    ops: &O,
    spectra: &S,
    spectrum: spec_fn(Seq<u32>) -> Seq<u32>,
    samples: &[u32],
    rest: &[u32],
    sample_offset: usize,
    start: usize,
    end: usize,
    whole: Result<Vec<u32>, XasrFrontendError>,
    drained: Result<Vec<u32>, XasrFrontendError>,
)
    requires
        float_ops::functional(ops),
        framewise(spectra, spectrum),
        samples@.len() <= usize::MAX,
        sample_offset < samples@.len(),
        rest@ == samples@.skip(sample_offset as int),
        start <= end <= frame_count(samples@.len() as int),
        frontend.range_outcome(ops, spectra, samples, 0, start, end, whole),
        frontend.range_outcome(ops, spectra, rest, sample_offset, start, end, drained),
    ensures
        whole is Ok,
        drained is Ok ==> drained->Ok_0@ == whole->Ok_0@,
        sample_offset <= first_sample(start as int) && end <= clean_count(samples@.len() as int)
            ==> drained is Ok,
        sample_offset > first_sample(start as int) ==> drained == Err::<
            Vec<u32>,
            XasrFrontendError,
        >(XasrFrontendError::MissingPrefix { frame: start }),
        drained is Err && sample_offset <= first_sample(start as int) ==> exists|frame: usize|
            start <= frame < end && !(#[trigger] taps_present(
                rest@.len() as int,
                sample_offset as int,
                samples@.len() as int,
                frame as int,
            )) && drained->Err_0 == (XasrFrontendError::MissingPrefix { frame }),
{
    let mels = XASR_N_MELS as int;
    let total = samples@.len() as int;
    assert(rest@.len() == total - sample_offset);
    lemma_whole_stream_present(total, start as int, end as int);
    lemma_range_succeeds(frontend, ops, spectra, spectrum, samples, 0, start, end, whole);
    if sample_offset <= first_sample(start as int) {
        lemma_range_succeeds(
            frontend,
            ops,
            spectra,
            spectrum,
            rest,
            sample_offset,
            start,
            end,
            drained,
        );
        if end <= clean_count(total) {
            assert forall|frame: int| start <= frame < end implies #[trigger] taps_present(
                rest@.len() as int,
                sample_offset as int,
                total,
                frame,
            ) by {
                lemma_clean_taps(total, sample_offset as int, frame);
                law_drained_samples_stay_unneeded(start as int, frame);
            }
        }
    }
    if drained is Ok {
        let a = whole->Ok_0;
        let b = drained->Ok_0;
        assert forall|i: int| 0 <= i < a@.len() implies b@[i] == a@[i] by {
            let t = i / mels;
            let mel = i % mels;
            lemma_range_at(frontend, ops, spectra, spectrum, samples, 0, start, end, a, t, mel);
            lemma_range_at(
                frontend,
                ops,
                spectra,
                spectrum,
                rest,
                sample_offset,
                start,
                end,
                b,
                t,
                mel,
            );
            let c = taps(samples@, 0, total, start + t);
            let d = taps(rest@, sample_offset as int, total, start + t);
            assert forall|tap: int| 0 <= tap < FRAME_LENGTH implies c[tap] == d[tap] by {
                let at = reflected(total, (start + t) * 160 - 120 + tap);
                assert(sample_offset <= at < sample_offset + rest@.len());
                assert(rest@[at - sample_offset] == samples@[at]);
            }
            assert(c =~= d);
        }
        assert(b@ =~= a@);
    }
}

/// A clean frame reads nothing before its first sample.
proof fn lemma_clean_taps(total: int, sample_offset: int, frame: int)
    requires
        0 <= frame < clean_count(total),
        0 <= sample_offset < total,
    ensures
        sample_offset <= first_sample(frame) ==> taps_present(
            total - sample_offset,
            sample_offset,
            total,
            frame,
        ),
{
    law_clean_frames_read_only_real_samples(total, frame);
    if sample_offset <= first_sample(frame) {
        assert forall|tap: int| 0 <= tap < FRAME_LENGTH implies sample_offset
            <= #[trigger] reflected(total, frame * 160 - 120 + tap) < total by {
            law_reflection_stays_in_bounds(total, frame * 160 - 120 + tap);
        }
    }
}

/// Clean frames have features, and keep them as samples are added.
pub proof fn law_clean_frames_keep_their_features<
    O: FloatOps,
    S: Fn(&[u32], usize, usize, usize, usize) -> Result<Vec<u32>, usize>,
>(
    frontend: XasrFbankFrontend,
    ops: &O,
    spectra: &S,
    spectrum: spec_fn(Seq<u32>) -> Seq<u32>,
    samples: &[u32],
    more: &[u32],
    start: usize,
    end: usize,
    before: Result<Vec<u32>, XasrFrontendError>,
    after: Result<Vec<u32>, XasrFrontendError>,
)
    requires
        float_ops::functional(ops),
        framewise(spectra, spectrum),
        0 < samples@.len(),
        samples@.is_prefix_of(more@),
        more@.len() <= usize::MAX,
        start <= end <= clean_count(samples@.len() as int),
        frontend.range_outcome(ops, spectra, samples, 0, start, end, before),
        frontend.range_outcome(ops, spectra, more, 0, start, end, after),
    ensures
        before is Ok,
        after is Ok,
        after->Ok_0@ == before->Ok_0@,
{
    let mels = XASR_N_MELS as int;
    let n = samples@.len() as int;
    law_clean_frames_are_frames(n);
    law_frames_only_grow(n, more@.len() as int);
    lemma_whole_stream_present(n, start as int, end as int);
    lemma_whole_stream_present(more@.len() as int, start as int, end as int);
    lemma_range_succeeds(frontend, ops, spectra, spectrum, samples, 0, start, end, before);
    lemma_range_succeeds(frontend, ops, spectra, spectrum, more, 0, start, end, after);
    let first = before->Ok_0;
    let second = after->Ok_0;
    assert forall|i: int| 0 <= i < first@.len() implies second@[i] == first@[i] by {
        let t = i / mels;
        let mel = i % mels;
        lemma_range_at(frontend, ops, spectra, spectrum, samples, 0, start, end, first, t, mel);
        lemma_range_at(frontend, ops, spectra, spectrum, more, 0, start, end, second, t, mel);
        let a = taps(samples@, 0, n, start + t);
        let b = taps(more@, 0, more@.len() as int, start + t);
        assert forall|tap: int| 0 <= tap < FRAME_LENGTH implies a[tap] == b[tap] by {
            law_clean_frames_are_stable(n, more@.len() as int, start + t, tap);
            let at = reflected(n, (start + t) * 160 - 120 + tap);
            assert(0 <= at < n);
            assert(more@.take(n)[at] == samples@[at]);
        }
        assert(a =~= b);
    }
    assert(second@ =~= first@);
}

} // verus!
