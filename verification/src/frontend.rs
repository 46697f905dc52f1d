//! Log-mel features: which samples each frame reads, and the projection of
//! power spectra onto the mel filters.

use vstd::prelude::*;
use vstd::string::StringExecFns;
use crate::bits;
use crate::bits::{INFINITY_BITS, ZERO_BITS};
use crate::float_ops;
use crate::float_ops::{FloatModel, FloatOps};
use crate::rows::{joined, lemma_joined_at, lemma_joined_len, part_of};
use crate::sums::{dot, dot_from};
use crate::text;
use crate::text::decimal;

verus! {

pub const XASR_SAMPLE_RATE_HZ: u32 = 16_000;

pub const XASR_CHANNELS: u16 = 1;

/// Samples of silence that follow an utterance: 0.8 s.  The encoder needs them
/// to give out the last tokens, above all the closing punctuation.
pub const XASR_FINAL_FLUSH_TAIL_PAD_SAMPLES: usize = 12_800;

/// Samples of a frame: 25 ms.
pub const FRAME_LENGTH: usize = 400;

/// Samples between frames: 10 ms.
pub const FRAME_SHIFT: usize = 160;

pub const N_FFT: usize = 512;

/// Bins of a power spectrum.
pub const FFT_BINS: usize = 257;

pub const XASR_N_MELS: usize = 80;

/// The least energy that a logarithm is taken of.
pub const LOG_EPSILON_BITS: u32 = 0x3400_0000;

/// Features of an utterance: one row for each frame.
#[derive(Clone, Debug, PartialEq)]
pub struct XasrFbankFeatures {
    pub data: Vec<u32>,
    pub n_frames: usize,
    pub n_mels: usize,
}

/// Why features could not be computed.
#[derive(Clone, Copy, Debug, PartialEq, Eq, Structural)]
pub enum XasrFrontendError {
    UnsupportedAudio,
    NoFrames { samples: usize },
    MissingPrefix { frame: usize },
}

impl XasrFrontendError {
    /// The failure in words.
    pub fn message(&self) -> (message: String)
        ensures
            message@ == (match *self {
                XasrFrontendError::UnsupportedAudio =>
                    "xasr frontend requires finite 16 kHz mono f32 audio"@,
                XasrFrontendError::NoFrames { samples } =>
                    "xasr frontend produced no fbank frames from "@ + decimal(samples as nat)
                        + " samples"@,
                XasrFrontendError::MissingPrefix { frame } =>
                    "xasr frontend was asked for frame "@ + decimal(frame as nat)
                        + " whose samples were already drained"@,
            }),
    {
        match self {
            XasrFrontendError::UnsupportedAudio => text::copy_text(
                "xasr frontend requires finite 16 kHz mono f32 audio",
            ),
            XasrFrontendError::NoFrames { samples } => {
                let mut message = text::copy_text("xasr frontend produced no fbank frames from ");
                text::push_number(&mut message, *samples);
                message.append(" samples");
                message
            },
            XasrFrontendError::MissingPrefix { frame } => {
                let mut message = text::copy_text("xasr frontend was asked for frame ");
                text::push_number(&mut message, *frame);
                message.append(" whose samples were already drained");
                message
            },
        }
    }
}

/// Frames of a stream: one for each shift, to the nearest.
pub open spec fn frame_count(samples: int) -> int {
    (samples + 80) / 160
}

/// Frames that no later sample changes.
pub open spec fn clean_count(samples: int) -> int {
    if samples < 280 {
        0
    } else {
        (samples - 280) / 160 + 1
    }
}

/// The first sample that a frame reads.
pub open spec fn first_sample(frame: int) -> int {
    if frame * 160 < 120 {
        0
    } else {
        frame * 160 - 120
    }
}

/// Frames of a stream.
pub fn snip_edges_false_frame_count(num_samples: usize) -> (count: usize)
    requires
        num_samples + FRAME_SHIFT / 2 <= usize::MAX,
    ensures
        count == frame_count(num_samples as int),
{
    if num_samples == 0 {
        return 0;
    }
    (num_samples + FRAME_SHIFT / 2) / FRAME_SHIFT
}

/// Frames of a stream.
pub fn total_frame_count_for_samples(num_samples: usize) -> (count: usize)
    requires
        num_samples + FRAME_SHIFT / 2 <= usize::MAX,
    ensures
        count == frame_count(num_samples as int),
{
    snip_edges_false_frame_count(num_samples)
}

/// The first sample that a frame reads.
pub fn earliest_sample_needed_for_frame(frame: usize) -> (sample: usize)
    requires
        frame * FRAME_SHIFT <= usize::MAX,
    ensures
        sample == first_sample(frame as int),
{
    let start = frame * FRAME_SHIFT;
    let lead = FRAME_LENGTH / 2 - FRAME_SHIFT / 2;
    if start < lead {
        0
    } else {
        start - lead
    }
}

/// Frames that no later sample changes.
pub fn clean_frame_count_for_samples(num_samples: usize) -> (count: usize)
    ensures
        count == clean_count(num_samples as int),
{
    let right_edge_samples = FRAME_LENGTH - (FRAME_LENGTH / 2 - FRAME_SHIFT / 2);
    if num_samples < right_edge_samples {
        0
    } else {
        (num_samples - right_edge_samples) / FRAME_SHIFT + 1
    }
}

/// A frame is clean exactly when the stream holds every sample that it reads:
/// its last one is sample `160 frame + 279`.
pub proof fn law_clean_frames_read_only_real_samples(samples: int, frame: int)
    requires
        0 <= samples,
        0 <= frame,
    ensures
        frame < clean_count(samples) <==> frame * 160 + 280 <= samples,
{
}

/// Every clean frame is a frame of the stream.
pub proof fn law_clean_frames_are_frames(samples: int)
    requires
        0 <= samples,
    ensures
        0 <= clean_count(samples) <= frame_count(samples),
{
}

/// Further samples take no frame away, and make no clean frame unclean.
pub proof fn law_frames_only_grow(samples: int, more: int)
    requires
        0 <= samples <= more,
    ensures
        frame_count(samples) <= frame_count(more),
        clean_count(samples) <= clean_count(more),
{
}

/// Samples that a frame does not need are not needed by later frames.
pub proof fn law_drained_samples_stay_unneeded(frame: int, later: int)
    requires
        0 <= frame <= later,
    ensures
        first_sample(frame) <= first_sample(later),
        first_sample(frame) <= frame * 160,
{
}

/// The sample that stands for position `index` beside a stream of `len`
/// samples: the stream is mirrored at its first and last sample.
pub open spec fn reflected(len: int, index: int) -> int {
    let period = 2 * (len - 1);
    if len <= 1 {
        0
    } else if index % period < len {
        index % period
    } else {
        period - index % period
    }
}

/// The sample that stands for position `index` beside a stream.
pub fn reflect_index_no_repeat(len: usize, index: i64) -> (sample: usize)
    requires
        0 < len,
    ensures
        sample == reflected(len as int, index as int),
        sample < len,
{
    if len == 1 {
        return 0;
    }
    let period: i128 = 2 * (len as i128 - 1);
    let remainder: i128 = if index >= 0 {
        index as i128 % period
    } else {
        let below: i128 = (-(index as i128 + 1)) % period;
        period - 1 - below
    };
    proof {
        if index < 0 {
            let k = (-(index + 1)) as int;
            vstd::arithmetic::div_mod::lemma_fundamental_div_mod(k, period as int);
            let q = k / period as int;
            let r = k % period as int;
            assert(index as int == period * (-q - 1) + (period - 1 - r)) by (nonlinear_arith)
                requires
                    index == -k - 1,
                    k == period * q + r,
            ;
            vstd::arithmetic::div_mod::lemma_fundamental_div_mod_converse(
                index as int,
                period as int,
                -q - 1,
                period - 1 - r,
            );
        }
    }
    if remainder < len as i128 {
        remainder as usize
    } else {
        (period - remainder) as usize
    }
}

/// A mirrored position is a sample of the stream, and positions of the stream
/// stand for themselves.
pub proof fn law_reflection_stays_in_bounds(len: int, index: int)
    requires
        0 < len,
    ensures
        0 <= reflected(len, index) < len,
        0 <= index < len ==> reflected(len, index) == index,
{
    if len > 1 && 0 <= index < len {
        vstd::arithmetic::div_mod::lemma_small_mod(index as nat, (2 * (len - 1)) as nat);
    }
}

/// What a clean frame reads does not change as samples are added: tap `tap` of
/// the frame stands for the same sample of the shorter and of the longer
/// stream.
pub proof fn law_clean_frames_are_stable(samples: int, more: int, frame: int, tap: int)
    requires
        0 <= samples <= more,
        0 <= frame < clean_count(samples),
        0 <= tap < FRAME_LENGTH,
    ensures
        reflected(samples, frame * 160 - 120 + tap) == reflected(more, frame * 160 - 120 + tap),
{
    let place = frame * 160 - 120 + tap;
    law_clean_frames_read_only_real_samples(samples, frame);
    if place >= 0 {
        law_reflection_stays_in_bounds(samples, place);
        law_reflection_stays_in_bounds(more, place);
    } else {
        lemma_reflected_left(samples, place);
        lemma_reflected_left(more, place);
    }
}

/// A position a little to the left of a stream is mirrored at its first sample.
proof fn lemma_reflected_left(len: int, index: int)
    requires
        -len < index < 0,
    ensures
        reflected(len, index) == -index,
{
    let period = 2 * (len - 1);
    assert(index == period * (-1) + (period + index));
    vstd::arithmetic::div_mod::lemma_fundamental_div_mod_converse(
        index,
        period,
        -1,
        period + index,
    );
}

/// The pattern of a number above zero.
pub open spec fn positive(value: u32) -> bool {
    ZERO_BITS < value <= INFINITY_BITS
}

/// `range` covers the positive values of a row as closely as it can.
pub open spec fn covers_positive(row: Seq<u32>, range: (usize, usize)) -> bool {
    let none = forall|i: int| 0 <= i < row.len() ==> !positive(#[trigger] row[i]);
    if none {
        range == (0usize, 0usize)
    } else {
        &&& range.0 < range.1 <= row.len()
        &&& positive(row[range.0 as int])
        &&& positive(row[range.1 - 1])
        &&& forall|i: int| 0 <= i < range.0 ==> !positive(#[trigger] row[i])
        &&& forall|i: int| range.1 <= i < row.len() ==> !positive(#[trigger] row[i])
    }
}

/// The range of the positive values of a row.
pub fn positive_range(row: &[u32]) -> (range: (usize, usize))
    ensures
        covers_positive(row@, range),
        range.0 <= range.1 <= row@.len(),
{
    let mut start: usize = 0;
    while start < row.len() && !(ZERO_BITS < row[start] && row[start] <= INFINITY_BITS)
        invariant
            start <= row@.len(),
            forall|i: int| 0 <= i < start ==> !positive(#[trigger] row@[i]),
        decreases row@.len() - start,
    {
        start = start + 1;
    }
    if start == row.len() {
        return (0, 0);
    }
    assert(positive(row@[start as int]));
    let mut end = row.len();
    while !(ZERO_BITS < row[end - 1] && row[end - 1] <= INFINITY_BITS)
        invariant
            start < end <= row@.len(),
            positive(row@[start as int]),
            forall|i: int| end <= i < row@.len() ==> !positive(#[trigger] row@[i]),
        decreases end,
    {
        end = end - 1;
    }
    (start, end)
}

/// The logarithm of the energy that a filter takes from a power spectrum.
pub open spec fn mel_value(
    m: FloatModel,
    filter: Seq<u32>,
    range: (usize, usize),
    power: Seq<u32>,
) -> u32 {
    (m.ln)(
        (m.max)(
            dot(
                m,
                ZERO_BITS,
                filter,
                range.0 as int,
                power,
                range.0 as int,
                range.1 - range.0,
            ),
            LOG_EPSILON_BITS,
        ),
    )
}

/// Computes features.
#[derive(Clone, Debug)]
pub struct XasrFbankFrontend {
    mel_filters: Vec<u32>,
    mel_bin_ranges: Vec<(usize, usize)>,
}

impl XasrFbankFrontend {
    /// The filters, one row after the other.
    pub closed spec fn filters(self) -> Seq<u32> {
        self.mel_filters@
    }

    /// The bins of each filter that are looked at.
    pub closed spec fn ranges(self) -> Seq<(usize, usize)> {
        self.mel_bin_ranges@
    }

    /// There are as many filters and ranges as features of a frame, and the
    /// ranges cover what is positive.
    pub open spec fn wf(self) -> bool {
        &&& self.filters().len() == XASR_N_MELS * FFT_BINS
        &&& self.ranges().len() == XASR_N_MELS
        &&& forall|mel: int|
            0 <= mel < XASR_N_MELS ==> {
                let range = #[trigger] self.ranges()[mel];
                &&& range.0 <= range.1 <= FFT_BINS
                &&& covers_positive(part_of(self.filters(), FFT_BINS as int, mel), range)
            }
    }

    /// A frontend with these filters.
    pub fn new(mel_filters: Vec<u32>) -> (frontend: Self)
        requires
            mel_filters@.len() == XASR_N_MELS * FFT_BINS,
        ensures
            frontend.wf(),
            frontend.filters() == mel_filters@,
    {
        let mut mel_bin_ranges: Vec<(usize, usize)> = Vec::new();
        let mut mel: usize = 0;
        while mel < XASR_N_MELS
            invariant
                mel <= XASR_N_MELS,
                mel_filters@.len() == XASR_N_MELS * FFT_BINS,
                mel_bin_ranges@.len() == mel,
                forall|k: int|
                    0 <= k < mel ==> {
                        let range = #[trigger] mel_bin_ranges@[k];
                        &&& range.0 <= range.1 <= FFT_BINS
                        &&& covers_positive(part_of(mel_filters@, FFT_BINS as int, k), range)
                    },
            decreases XASR_N_MELS - mel,
        {
            let row = vstd::slice::slice_subrange(
                mel_filters.as_slice(),
                mel * FFT_BINS,
                (mel + 1) * FFT_BINS,
            );
            assert(row@ =~= part_of(mel_filters@, FFT_BINS as int, mel as int));
            mel_bin_ranges.push(positive_range(row));
            mel = mel + 1;
        }
        XasrFbankFrontend { mel_filters, mel_bin_ranges }
    }

    /// The features of a frame with this power spectrum.
    pub open spec fn frame_row(self, m: FloatModel, power: Seq<u32>) -> Seq<u32> {
        Seq::new(
            XASR_N_MELS as nat,
            |mel: int|
                mel_value(
                    m,
                    part_of(self.filters(), FFT_BINS as int, mel),
                    self.ranges()[mel],
                    power,
                ),
        )
    }

    fn push_frame<O: FloatOps>(&self, ops: &O, power: &[u32], output: &mut Vec<u32>)
        requires
            self.wf(),
            power@.len() == FFT_BINS,
        ensures
            final(output)@.len() == old(output)@.len() + XASR_N_MELS,
            float_ops::functional(ops) ==> final(output)@ == old(output)@ + self.frame_row(
                float_ops::model(ops),
                power@,
            ),
    {
        let ghost m = float_ops::model(ops);
        let mut mel: usize = 0;
        while mel < XASR_N_MELS
            invariant
                mel <= XASR_N_MELS,
                self.wf(),
                power@.len() == FFT_BINS,
                m == float_ops::model(ops),
                output@.len() == old(output)@.len() + mel,
                float_ops::functional(ops) ==> output@ =~= old(output)@ + self.frame_row(
                    m,
                    power@,
                ).take(mel as int),
            decreases XASR_N_MELS - mel,
        {
            let filter = vstd::slice::slice_subrange(
                self.mel_filters.as_slice(),
                mel * FFT_BINS,
                (mel + 1) * FFT_BINS,
            );
            assert(filter@ =~= part_of(self.filters(), FFT_BINS as int, mel as int));
            let (bin_start, bin_end) = self.mel_bin_ranges[mel];
            assert(self.ranges()[mel as int] == (bin_start, bin_end));
            let energy = dot_from(
                ops,
                ZERO_BITS,
                filter,
                bin_start,
                power,
                bin_start,
                bin_end - bin_start,
            );
            let floored = ops.max(energy, LOG_EPSILON_BITS);
            output.push(ops.ln(floored));
            proof {
                if float_ops::functional(ops) {
                    assert(self.frame_row(m, power@).take(mel + 1) =~= self.frame_row(
                        m,
                        power@,
                    ).take(mel as int).push(self.frame_row(m, power@)[mel as int]));
                }
            }
            mel = mel + 1;
        }
        proof {
            assert(self.frame_row(m, power@).take(mel as int) =~= self.frame_row(m, power@));
        }
    }

    /// The features of frames with these power spectra.
    pub open spec fn frame_rows(self, m: FloatModel, power: Seq<u32>, frames: int) -> Seq<u32> {
        joined(frames, |t: int| self.frame_row(m, part_of(power, FFT_BINS as int, t)))
    }

    /// The features of a range of frames are those that the frames have among
    /// all frames.
    pub proof fn law_frame_range_is_part_of_all(
        self,
        m: FloatModel,
        power: Seq<u32>,
        frames: int,
        start: int,
        end: int,
    )
        requires
            0 <= start <= end <= frames,
            power.len() == frames * FFT_BINS,
        ensures
            self.frame_rows(
                m,
                power.subrange(start * FFT_BINS, end * FFT_BINS),
                end - start,
            ) == self.frame_rows(m, power, frames).subrange(
                start * XASR_N_MELS,
                end * XASR_N_MELS,
            ),
    {
        let bins = FFT_BINS as int;
        let mels = XASR_N_MELS as int;
        let part = power.subrange(start * bins, end * bins);
        let whole_row = |t: int| self.frame_row(m, part_of(power, bins, t));
        let part_row = |t: int| self.frame_row(m, part_of(part, bins, t));
        lemma_joined_len(frames, whole_row, mels);
        lemma_joined_len(end - start, part_row, mels);
        let whole = self.frame_rows(m, power, frames);
        let ranged = self.frame_rows(m, part, end - start);
        assert forall|i: int| 0 <= i < ranged.len() implies ranged[i] == whole[start * mels
            + i] by {
            let t = i / mels;
            let c = i % mels;
            lemma_joined_at(end - start, part_row, mels, t, c);
            lemma_joined_at(frames, whole_row, mels, start + t, c);
            assert(part_of(part, bins, t) =~= part_of(power, bins, start + t));
        }
        assert(ranged =~= whole.subrange(start * mels, end * mels));
    }

    /// Projects the power spectra of `frames` frames onto the filters.
    pub fn project_frames<O: FloatOps>(
        &self,
        ops: &O,
        power: &[u32],
        frames: usize,
    ) -> (output: Vec<
        u32,
    >)
        requires
            self.wf(),
            power@.len() == frames * FFT_BINS,
        ensures
            output@.len() == frames * XASR_N_MELS,
            float_ops::functional(ops) ==> output@ == self.frame_rows(
                float_ops::model(ops),
                power@,
                frames as int,
            ),
    {
        let ghost m = float_ops::model(ops);
        let ghost row = |t: int| self.frame_row(m, part_of(power@, FFT_BINS as int, t));
        let mut output: Vec<u32> = Vec::new();
        let mut frame: usize = 0;
        assert(power.len() == power@.len());
        while frame < frames
            invariant
                frame <= frames,
                self.wf(),
                power@.len() == frames * FFT_BINS,
                power@.len() <= usize::MAX,
                m == float_ops::model(ops),
                row == (|t: int| self.frame_row(m, part_of(power@, FFT_BINS as int, t))),
                output@.len() == frame * XASR_N_MELS,
                float_ops::functional(ops) ==> output@ == joined(frame as int, row),
            decreases frames - frame,
        {
            let slice = vstd::slice::slice_subrange(
                power,
                frame * FFT_BINS,
                (frame + 1) * FFT_BINS,
            );
            assert(slice@ =~= part_of(power@, FFT_BINS as int, frame as int));
            let ghost before = output@;
            self.push_frame(ops, slice, &mut output);
            proof {
                if float_ops::functional(ops) {
                    assert(output@ == before + row(frame as int));
                }
            }
            frame = frame + 1;
        }
        output
    }

    /// Why features of a range of frames of a stream are refused.
    pub open spec fn range_refusal(
        samples: int,
        sample_offset: usize,
        start_frame: usize,
        end_frame: usize,
    ) -> Option<XasrFrontendError> {
        let total = sample_offset + samples;
        if samples == 0 || total > usize::MAX {
            Some(XasrFrontendError::UnsupportedAudio)
        } else if end_frame > frame_count(total) || start_frame > end_frame {
            Some(XasrFrontendError::NoFrames { samples: total as usize })
        } else if first_sample(start_frame as int) < sample_offset {
            Some(XasrFrontendError::MissingPrefix { frame: start_frame })
        } else {
            None
        }
    }

    /// What can come of the features of a range of frames: a refusal, or what
    /// the filters make of the spectra that `spectra` gave.
    pub open spec fn range_outcome<
        O: FloatOps,
        S: Fn(&[u32], usize, usize, usize, usize) -> Result<Vec<u32>, usize>,
    >(
        self,
        ops: &O,
        spectra: &S,
        samples: &[u32],
        sample_offset: usize,
        start_frame: usize,
        end_frame: usize,
        result: Result<Vec<u32>, XasrFrontendError>,
    ) -> bool {
        match Self::range_refusal(samples@.len() as int, sample_offset, start_frame, end_frame) {
            Some(error) => result == Err::<Vec<u32>, XasrFrontendError>(error),
            None => exists|spectrum: Result<Vec<u32>, usize>|
                #[trigger] call_ensures(
                    spectra,
                    (
                        samples,
                        sample_offset,
                        (sample_offset + samples@.len()) as usize,
                        start_frame,
                        end_frame,
                    ),
                    spectrum,
                ) && (match spectrum {
                    Ok(power) => {
                        &&& result is Ok
                        &&& result->Ok_0@.len() == (end_frame - start_frame) * XASR_N_MELS
                        &&& float_ops::functional(ops) ==> result->Ok_0@ == self.frame_rows(
                            float_ops::model(ops),
                            power@,
                            end_frame - start_frame,
                        )
                    },
                    Err(frame) => result == Err::<Vec<u32>, XasrFrontendError>(
                        XasrFrontendError::MissingPrefix { frame },
                    ),
                }),
        }
    }

    /// Features of frames `start_frame..end_frame` of a stream whose first
    /// `sample_offset` samples were dropped.  `spectra` gives the power spectra
    /// of frames, or the first frame that it has no samples for.
    pub fn features_for_frame_range_from<
        O: FloatOps,
        S: Fn(&[u32], usize, usize, usize, usize) -> Result<Vec<u32>, usize>,
    >(
        &self,
        ops: &O,
        spectra: &S,
        samples: &[u32],
        sample_offset: usize,
        start_frame: usize,
        end_frame: usize,
    ) -> (result: Result<Vec<u32>, XasrFrontendError>)
        requires
            self.wf(),
            sample_offset + samples@.len() + FRAME_SHIFT / 2 <= usize::MAX
                || sample_offset + samples@.len() > usize::MAX,
            call_requires(
                spectra,
                (
                    samples,
                    sample_offset,
                    (sample_offset + samples@.len()) as usize,
                    start_frame,
                    end_frame,
                ),
            ),
            forall|power: Vec<u32>|
                #[trigger] call_ensures(
                    spectra,
                    (
                        samples,
                        sample_offset,
                        (sample_offset + samples@.len()) as usize,
                        start_frame,
                        end_frame,
                    ),
                    Ok::<Vec<u32>, usize>(power),
                ) ==> power@.len() == (end_frame - start_frame) * FFT_BINS,
        ensures
            self.range_outcome(
                ops,
                spectra,
                samples,
                sample_offset,
                start_frame,
                end_frame,
                result,
            ),
    {
        if samples.len() == 0 {
            return Err(XasrFrontendError::UnsupportedAudio);
        }
        let total_len = match sample_offset.checked_add(samples.len()) {
            Some(total) => total,
            None => return Err(XasrFrontendError::UnsupportedAudio),
        };
        let total_frames = snip_edges_false_frame_count(total_len);
        if end_frame > total_frames || start_frame > end_frame {
            return Err(XasrFrontendError::NoFrames { samples: total_len });
        }
        if earliest_sample_needed_for_frame(start_frame) < sample_offset {
            return Err(XasrFrontendError::MissingPrefix { frame: start_frame });
        }
        let spectrum = spectra(samples, sample_offset, total_len, start_frame, end_frame);
        assert(call_ensures(
            spectra,
            (samples, sample_offset, total_len, start_frame, end_frame),
            spectrum,
        ));
        match spectrum {
            Ok(power) => Ok(self.project_frames(ops, power.as_slice(), end_frame - start_frame)),
            Err(frame) => Err(XasrFrontendError::MissingPrefix { frame }),
        }
    }

    /// Features of frames `start_frame..end_frame` of a stream.
    pub fn features_for_frame_range<
        O: FloatOps,
        S: Fn(&[u32], usize, usize, usize, usize) -> Result<Vec<u32>, usize>,
    >(
        &self,
        ops: &O,
        spectra: &S,
        samples: &[u32],
        start_frame: usize,
        end_frame: usize,
    ) -> (result: Result<Vec<u32>, XasrFrontendError>)
        requires
            self.wf(),
            samples@.len() + FRAME_SHIFT / 2 <= usize::MAX,
            call_requires(
                spectra,
                (samples, 0usize, samples@.len() as usize, start_frame, end_frame),
            ),
            forall|power: Vec<u32>|
                #[trigger] call_ensures(
                    spectra,
                    (samples, 0usize, samples@.len() as usize, start_frame, end_frame),
                    Ok::<Vec<u32>, usize>(power),
                ) ==> power@.len() == (end_frame - start_frame) * FFT_BINS,
        ensures
            self.range_outcome(ops, spectra, samples, 0, start_frame, end_frame, result),
    {
        self.features_for_frame_range_from(ops, spectra, samples, 0, start_frame, end_frame)
    }

    /// Why features of an utterance are refused.
    pub open spec fn samples_refusal(samples: Seq<u32>) -> Option<XasrFrontendError> {
        if samples.len() == 0 || exists|i: int|
            0 <= i < samples.len() && !bits::finite(#[trigger] samples[i]) {
            Some(XasrFrontendError::UnsupportedAudio)
        } else if frame_count(samples.len() as int) == 0 {
            Some(XasrFrontendError::NoFrames { samples: samples.len() as usize })
        } else {
            None
        }
    }

    /// What can come of the features of an utterance: a refusal, or what the
    /// filters make of the spectra that `spectra` gave for all frames.
    pub open spec fn features_outcome<
        O: FloatOps,
        S: Fn(&[u32], usize, usize, usize, usize) -> Result<Vec<u32>, usize>,
    >(
        self,
        ops: &O,
        spectra: &S,
        samples: &[u32],
        result: Result<XasrFbankFeatures, XasrFrontendError>,
    ) -> bool {
        match Self::samples_refusal(samples@) {
            Some(error) => result == Err::<XasrFbankFeatures, XasrFrontendError>(error),
            None => exists|spectrum: Result<Vec<u32>, usize>|
                #[trigger] call_ensures(
                    spectra,
                    (
                        samples,
                        0usize,
                        samples@.len() as usize,
                        0usize,
                        frame_count(samples@.len() as int) as usize,
                    ),
                    spectrum,
                ) && (match spectrum {
                    Ok(power) => {
                        &&& result is Ok
                        &&& result->Ok_0.n_frames == frame_count(samples@.len() as int)
                        &&& result->Ok_0.n_mels == XASR_N_MELS
                        &&& result->Ok_0.data@.len() == result->Ok_0.n_frames * XASR_N_MELS
                        &&& float_ops::functional(ops) ==> result->Ok_0.data@
                            == self.frame_rows(
                            float_ops::model(ops),
                            power@,
                            frame_count(samples@.len() as int),
                        )
                    },
                    Err(frame) => result == Err::<XasrFbankFeatures, XasrFrontendError>(
                        XasrFrontendError::MissingPrefix { frame },
                    ),
                }),
        }
    }

    /// Features of an utterance.
    pub fn features_from_samples<
        O: FloatOps,
        S: Fn(&[u32], usize, usize, usize, usize) -> Result<Vec<u32>, usize>,
    >(&self, ops: &O, spectra: &S, samples: &[u32]) -> (result: Result<
        XasrFbankFeatures,
        XasrFrontendError,
    >)
        requires
            self.wf(),
            samples@.len() + FRAME_SHIFT / 2 <= usize::MAX,
            call_requires(
                spectra,
                (
                    samples,
                    0usize,
                    samples@.len() as usize,
                    0usize,
                    frame_count(samples@.len() as int) as usize,
                ),
            ),
            forall|power: Vec<u32>|
                #[trigger] call_ensures(
                    spectra,
                    (
                        samples,
                        0usize,
                        samples@.len() as usize,
                        0usize,
                        frame_count(samples@.len() as int) as usize,
                    ),
                    Ok::<Vec<u32>, usize>(power),
                ) ==> power@.len() == frame_count(samples@.len() as int) * FFT_BINS,
        ensures
            self.features_outcome(ops, spectra, samples, result),
    {
        if samples.len() == 0 {
            return Err(XasrFrontendError::UnsupportedAudio);
        }
        let mut i: usize = 0;
        while i < samples.len()
            invariant
                i <= samples@.len(),
                forall|j: int| 0 <= j < i ==> bits::finite(#[trigger] samples@[j]),
            decreases samples@.len() - i,
        {
            if !bits::is_finite(samples[i]) {
                return Err(XasrFrontendError::UnsupportedAudio);
            }
            i = i + 1;
        }
        let n_frames = snip_edges_false_frame_count(samples.len());
        if n_frames == 0 {
            return Err(XasrFrontendError::NoFrames { samples: samples.len() });
        }
        let spectrum = spectra(samples, 0, samples.len(), 0, n_frames);
        assert(
            call_ensures(
                spectra,
                (samples, 0usize, samples@.len() as usize, 0usize, n_frames),
                spectrum,
            )
        );
        match spectrum {
            Ok(power) => {
                let data = self.project_frames(ops, power.as_slice(), n_frames);
                Ok(XasrFbankFeatures { data, n_frames, n_mels: XASR_N_MELS })
            },
            Err(frame) => Err(XasrFrontendError::MissingPrefix { frame }),
        }
    }
}

} // verus!
