//! What the features of a frame are.

use vstd::prelude::*;
use crate::float_ops::FloatModel;
use crate::frontend::{
    clean_count, covers_positive, first_sample, frame_count, positive, reflected,
    XasrFbankFrontend, FFT_BINS, XASR_N_MELS,
};
use crate::rows::{lemma_joined_at, part_of};
use crate::sum_laws::{law_a_sum_of_products_adds_every_product, products, summed};
use crate::sums::dot;

verus! {

/// Products with zero add nothing to a sum.
pub open spec fn zero_adds_nothing(m: FloatModel) -> bool {
    forall|sum: u32, factor: u32|
        #![trigger (m.add)(sum, (m.mul)(0, factor))]
        #![trigger (m.add)(sum, (m.mul)(factor, 0))]
        (m.add)(sum, (m.mul)(0, factor)) == sum && (m.add)(sum, (m.mul)(factor, 0)) == sum
}

/// Products with zero in front of a sum, and behind it, can be left out.
proof fn lemma_zeros_left_out(
    m: FloatModel,
    xs: Seq<u32>,
    ys: Seq<u32>,
    from: int,
    to: int,
    end: int,
)
    requires
        zero_adds_nothing(m),
        0 <= from <= to <= end <= xs.len(),
        xs.len() == ys.len(),
        forall|i: int| 0 <= i < from ==> #[trigger] xs[i] == 0,
        forall|i: int| to <= i < end ==> #[trigger] xs[i] == 0,
    ensures
        dot(m, 0, xs, 0, ys, 0, end) == dot(m, 0, xs, from, ys, from, to - from),
    decreases end,
{
    if end > 0 {
        if to < end {
            lemma_zeros_left_out(m, xs, ys, from, to, end - 1);
            assert(xs[end - 1] == 0);
        } else if from < to {
            lemma_zeros_left_out(m, xs, ys, from, to - 1, end - 1);
        } else {
            lemma_zeros_left_out(m, xs, ys, from - 1, to - 1, end - 1);
            assert(xs[end - 1] == 0);
        }
    }
}

/// Every feature is the natural logarithm of the energy that its filter takes from the power
/// of its frame, and of no less than 2^-23: the energy is the sum over all bins of the filter
/// times the power, where a filter that is not positive is zero and zero adds nothing.
pub proof fn law_features_are_logarithms_of_filtered_power(
    frontend: XasrFbankFrontend,
    m: FloatModel,
    power: Seq<u32>,
    frames: int,
    t: int,
    mel: int,
)
    requires
        frontend.wf(),
        zero_adds_nothing(m),
        0 <= t < frames,
        0 <= mel < 80,
        power.len() == frames * 257,
        forall|bin: int|
            0 <= bin < 257 && !positive(#[trigger] frontend.filters()[mel * 257 + bin])
                ==> frontend.filters()[mel * 257 + bin] == 0,
    ensures
        ({
            let filter = frontend.filters().subrange(mel * 257, (mel + 1) * 257);
            let spectrum = power.subrange(t * 257, (t + 1) * 257);
            let features = frontend.frame_rows(m, power, frames);
            &&& features.len() == frames * 80
            &&& features[t * 80 + mel] == (m.ln)(
                (m.max)(summed(m, 0, products(m, filter, spectrum)), 0x3400_0000),
            )
        }),
{
    let bins = FFT_BINS as int;
    let filter = part_of(frontend.filters(), bins, mel);
    let spectrum = part_of(power, bins, t);
    let part = |t: int| frontend.frame_row(m, part_of(power, bins, t));
    lemma_joined_at(frames, part, XASR_N_MELS as int, t, mel);
    let range = frontend.ranges()[mel];
    assert(covers_positive(filter, range));
    assert forall|i: int| 0 <= i < 257 && !positive(#[trigger] filter[i]) implies filter[i]
        == 0 by {
        assert(filter[i] == frontend.filters()[mel * 257 + i]);
    }
    lemma_zeros_left_out(m, filter, spectrum, range.0 as int, range.1 as int, bins);
    law_a_sum_of_products_adds_every_product(m, 0, filter, 0, spectrum, 0, bins);
    assert(filter.subrange(0, bins) =~= filter);
    assert(spectrum.subrange(0, bins) =~= spectrum);
}

/// A frame without power has the logarithm of 2^-23 in every feature, where that is the
/// greater of it and zero.
pub proof fn law_silence_has_the_least_features(
    frontend: XasrFbankFrontend,
    m: FloatModel,
    power: Seq<u32>,
    frames: int,
    t: int,
    mel: int,
)
    requires
        frontend.wf(),
        zero_adds_nothing(m),
        (m.max)(0, 0x3400_0000) == 0x3400_0000,
        0 <= t < frames,
        0 <= mel < 80,
        power.len() == frames * 257,
        forall|bin: int| 0 <= bin < 257 ==> #[trigger] power[t * 257 + bin] == 0,
    ensures
        frontend.frame_rows(m, power, frames)[t * 80 + mel] == (m.ln)(0x3400_0000),
{
    let bins = FFT_BINS as int;
    let filter = part_of(frontend.filters(), bins, mel);
    let spectrum = part_of(power, bins, t);
    let part = |t: int| frontend.frame_row(m, part_of(power, bins, t));
    lemma_joined_at(frames, part, XASR_N_MELS as int, t, mel);
    let range = frontend.ranges()[mel];
    assert forall|i: int| 0 <= i < 257 implies #[trigger] spectrum[i] == 0 by {
        assert(spectrum[i] == power[t * 257 + i]);
    }
    lemma_no_power(m, filter, spectrum, range.0 as int, range.1 - range.0);
}

proof fn lemma_no_power(m: FloatModel, filter: Seq<u32>, power: Seq<u32>, from: int, n: int)
    requires
        zero_adds_nothing(m),
        0 <= from,
        0 <= n,
        from + n <= power.len(),
        forall|i: int| 0 <= i < power.len() ==> #[trigger] power[i] == 0,
    ensures
        dot(m, 0, filter, from, power, from, n) == 0,
    decreases n,
{
    if n > 0 {
        lemma_no_power(m, filter, power, from, n - 1);
        assert(power[from + n - 1] == 0);
    }
}

/// Frame `t` reads the 400 samples round the one at `160 t + 80`: it is a frame of a stream
/// once that sample can be reached, it is final once the last of the 400 is there, and
/// nothing before the first of them is needed for it.
pub proof fn law_frames_lie_round_their_middle(samples: int, t: int)
    requires
        0 <= samples,
        0 <= t,
    ensures
        t < frame_count(samples) <==> 160 * t + 80 <= samples,
        t < clean_count(samples) <==> (160 * t + 80) + 200 <= samples,
        160 * t + 80 - 200 >= 0 ==> first_sample(t) == (160 * t + 80) - 200,
        160 * t + 80 - 200 < 0 ==> first_sample(t) == 0,
{
}

/// Beside a stream stands its mirror image: as far before the first sample as behind it, and
/// as far behind the last as before it.
pub proof fn law_streams_are_mirrored_at_their_ends(len: int, i: int)
    requires
        1 < len,
        0 <= i < len,
    ensures
        reflected(len, i) == i,
        reflected(len, -i) == i,
        reflected(len, len - 1 + i) == len - 1 - i,
{
    let period = 2 * (len - 1);
    vstd::arithmetic::div_mod::lemma_small_mod(i as nat, period as nat);
    if i > 0 {
        vstd::arithmetic::div_mod::lemma_fundamental_div_mod_converse(-i, period, -1, period - i);
    }
    if i < len - 1 {
        vstd::arithmetic::div_mod::lemma_small_mod((len - 1 + i) as nat, period as nat);
    } else {
        vstd::arithmetic::div_mod::lemma_fundamental_div_mod_converse(period, period, 1, 0);
    }
}

} // verus!
