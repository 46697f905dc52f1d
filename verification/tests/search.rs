//! The predictor, the joiner and the search.

use std::cell::Cell;
use std::collections::VecDeque;
use xasr_zipformer::bits::total_order;
use xasr_zipformer::decoder::{grouped_context_conv1d, XasrDecoder, XasrDecoderWeights};
use xasr_zipformer::encoder_weights::{NamedTensor, StoredLinear};
use xasr_zipformer::float_ops::FloatOps;
use xasr_zipformer::greedy::{
    argmax, greedy_decode_frames, greedy_decode_frames_incremental,
    greedy_decode_frames_incremental_with_backend, greedy_decode_frames_with_limit, Emissions,
    XasrGreedyDecodeBackend, DEFAULT_MAX_SYMBOLS_PER_FRAME,
};
use xasr_zipformer::joiner::{XasrJoiner, XasrJoinerWeights};
use xasr_zipformer::search_trace::CallRecord;
use xasr_zipformer::softmax::softmax_last_dim;

/// Float operations on the host.
struct Floats;

fn float(bits: u32) -> f32 {
    f32::from_bits(bits)
}

fn bits(values: &[f32]) -> Vec<u32> {
    values.iter().map(|value| value.to_bits()).collect()
}

fn floats(values: &[u32]) -> Vec<f32> {
    values.iter().map(|value| float(*value)).collect()
}

fn softplus(value: f32) -> f32 {
    value.max(0.0) + (-(value.abs())).exp().ln_1p()
}

impl FloatOps for Floats {
    fn add(&self, left: u32, right: u32) -> u32 {
        (float(left) + float(right)).to_bits()
    }

    fn sub(&self, left: u32, right: u32) -> u32 {
        (float(left) - float(right)).to_bits()
    }

    fn mul(&self, left: u32, right: u32) -> u32 {
        (float(left) * float(right)).to_bits()
    }

    fn div(&self, left: u32, right: u32) -> u32 {
        (float(left) / float(right)).to_bits()
    }

    fn max(&self, left: u32, right: u32) -> u32 {
        float(left).max(float(right)).to_bits()
    }

    fn min(&self, left: u32, right: u32) -> u32 {
        float(left).min(float(right)).to_bits()
    }

    fn exp(&self, value: u32) -> u32 {
        float(value).exp().to_bits()
    }

    fn ln(&self, value: u32) -> u32 {
        float(value).ln().to_bits()
    }

    fn inverse_sqrt(&self, value: u32) -> u32 {
        float(value).powf(-0.5).to_bits()
    }

    fn tanh(&self, value: u32) -> u32 {
        float(value).tanh().to_bits()
    }

    fn sigmoid(&self, value: u32) -> u32 {
        (1.0 / (1.0 + (-float(value)).exp())).to_bits()
    }

    fn softplus(&self, value: u32) -> u32 {
        softplus(float(value)).to_bits()
    }

    fn from_count(&self, count: usize) -> u32 {
        (count as f32).to_bits()
    }

    fn position_angle(&self, dim: usize, offset: i128) -> u32 {
        let compression = (dim as f32).sqrt();
        let length_scale = dim as f32 / (2.0 * std::f32::consts::PI);
        let sign = (offset as f32).signum();
        let distance = (offset as f32).abs();
        let compressed =
            compression * sign * ((distance + compression).ln() - compression.ln());
        (compressed / length_scale).atan().to_bits()
    }

    fn cos_multiple(&self, angle: u32, multiple: usize) -> u32 {
        (float(angle) * multiple as f32).cos().to_bits()
    }

    fn sin_multiple(&self, angle: u32, multiple: usize) -> u32 {
        (float(angle) * multiple as f32).sin().to_bits()
    }

    fn apply_linear(
        &self,
        weight: &StoredLinear,
        input: &[u32],
        bias: Option<&[u32]>,
    ) -> Result<Vec<u32>, String> {
        if input.len() != weight.input_dim {
            return Err(format!(
                "{} takes {} values, got {}",
                weight.name,
                weight.input_dim,
                input.len()
            ));
        }
        let mut output = Vec::new();
        for row in 0..weight.output_dim {
            let mut sum = match bias {
                Some(values) => float(values[row]),
                None => 0.0,
            };
            for column in 0..weight.input_dim {
                sum += float(weight.values[row * weight.input_dim + column]) * float(input[column]);
            }
            output.push(sum.to_bits());
        }
        Ok(output)
    }
}

fn linear(name: &str, input_dim: usize, output_dim: usize, values: &[f32]) -> StoredLinear {
    StoredLinear {
        name: name.to_string(),
        input_dim,
        output_dim,
        values: bits(values),
        native: None,
    }
}

fn identity(name: &str, dim: usize) -> StoredLinear {
    let mut values = vec![0.0_f32; dim * dim];
    for i in 0..dim {
        values[i * dim + i] = 1.0;
    }
    linear(name, dim, dim, &values)
}

fn named(name: &str, dims: &[usize], values: &[f32]) -> NamedTensor {
    NamedTensor {
        name: name.to_string(),
        dims: dims.to_vec(),
        values: bits(values),
    }
}

fn predictor_weights() -> XasrDecoderWeights {
    XasrDecoderWeights {
        embedding: linear(
            "decoder.EMB.weight",
            4,
            3,
            &[
                0.0, 0.0, 0.0, 0.0, // blank
                10.0, 20.0, 30.0, 40.0, // token 1
                100.0, 200.0, 300.0, 400.0, // token 2
            ],
        ),
        conv_weight: named(
            "decoder.conv.weight",
            &[2, 2, 4],
            &[
                1.0, 0.0, 0.0, 0.0, // out0 group0 ch0/ch1
                0.0, 1.0, 0.0, 0.0, // out1 group0
                1.0, 0.0, 0.0, 0.0, // out2 group1 ch2/ch3
                0.0, 1.0, 0.0, 0.0, // out3 group1
            ],
        ),
        groups: 2,
    }
}

fn decoder_weights() -> XasrDecoderWeights {
    XasrDecoderWeights {
        embedding: linear(
            "emb",
            2,
            3,
            &[
                0.0, 0.0, // blank
                1.0, 0.0, // token 1
                0.0, 1.0, // token 2
            ],
        ),
        conv_weight: named(
            "conv",
            &[2, 2, 2],
            &[
                0.0, 0.0, 1.0, 0.0, //
                0.0, 0.0, 0.0, 1.0,
            ],
        ),
        groups: 1,
    }
}

fn joiner_weights() -> XasrJoinerWeights {
    XasrJoinerWeights {
        encoder_proj_weight: identity("enc", 2),
        encoder_proj_bias: bits(&[0.0, 0.0]),
        decoder_proj_weight: linear("dec", 2, 2, &[-1.0, 0.0, 0.0, -1.0]),
        decoder_proj_bias: bits(&[0.0, 0.0]),
        output_linear_weight: linear(
            "out",
            2,
            3,
            &[
                -4.0, -4.0, // blank
                4.0, -4.0, // token 1
                -4.0, 4.0, // token 2
            ],
        ),
        output_linear_bias: bits(&[0.0, 0.0, 0.0]),
    }
}

fn refusal<T>(result: Result<T, String>) -> String {
    match result {
        Ok(_) => panic!("a refusal was expected"),
        Err(reason) => reason,
    }
}

fn nothing_found() -> Emissions {
    Emissions {
        token_ids: Vec::new(),
        emit_frames: Vec::new(),
        emit_probabilities: Vec::new(),
    }
}

fn decode_words(ids: &Vec<u32>) -> Result<String, String> {
    let vocabulary = ["<blk>", "\u{2581}A", "\u{2581}B"];
    let mut text = String::new();
    for id in ids {
        match vocabulary.get(*id as usize) {
            Some(piece) => text.push_str(piece),
            None => return Err(format!("token {id} is not in the vocabulary")),
        }
    }
    Ok(text.replace('\u{2581}', " ").trim().to_string())
}

#[test]
fn decoder_uses_blank_initial_context() {
    let decoder = XasrDecoder::new(predictor_weights(), 2, 0);
    assert_eq!(decoder.initial_context(), vec![0, 0]);
}

#[test]
fn initial_context_repeats_the_blank() {
    let decoder = XasrDecoder::new(predictor_weights(), 3, 7);
    assert_eq!(decoder.initial_context(), vec![7, 7, 7]);
}

#[test]
fn grouped_context_conv_matches_manual_reference() {
    let input = bits(&[
        1.0, 2.0, // ch0
        3.0, 4.0, // ch1
        5.0, 6.0, // ch2
        7.0, 8.0, // ch3
    ]);
    let weights = bits(&[
        1.0, 0.0, 0.0, 1.0, // out0 sees ch0/ch1
        0.5, 0.5, 0.5, 0.5, // out1 sees ch0/ch1
        1.0, 1.0, 0.0, 0.0, // out2 sees ch2/ch3
        0.0, 0.0, 1.0, 1.0, // out3 sees ch2/ch3
    ]);
    let output = grouped_context_conv1d(&Floats, &input, 4, 2, &weights, 2).unwrap();
    assert_eq!(floats(&output), vec![5.0, 5.0, 11.0, 15.0]);
}

#[test]
fn grouped_convolution_names_what_does_not_fit() {
    let input = bits(&[1.0, 2.0, 3.0, 4.0]);
    let weights = bits(&[1.0, 1.0, 1.0, 1.0]);
    assert_eq!(
        grouped_context_conv1d(&Floats, &input, 3, 2, &weights, 2).unwrap_err(),
        "xasr decoder channels 3 must be divisible by groups 2"
    );
    assert_eq!(
        grouped_context_conv1d(&Floats, &input, 2, 3, &weights, 2).unwrap_err(),
        "xasr decoder embedded input has 4 values, expected 6"
    );
    assert_eq!(
        grouped_context_conv1d(&Floats, &input, 2, 2, &weights[..3], 2).unwrap_err(),
        "xasr decoder conv has 3 values, expected 4"
    );
    assert_eq!(
        grouped_context_conv1d(&Floats, &input, usize::MAX, 2, &weights, 1).unwrap_err(),
        "xasr decoder input shape overflow"
    );
}

#[test]
fn decode_context_gathers_embeddings_in_time_order() {
    let decoder = XasrDecoder::new(predictor_weights(), 2, 0);
    let output = decoder.decode_context(&Floats, &[1, 2]).unwrap();
    assert_eq!(floats(&output), vec![10.0, 100.0, 30.0, 300.0]);
}

#[test]
fn decoder_output_has_no_negative_values() {
    let mut weights = predictor_weights();
    weights.conv_weight.values = bits(&[-1.0; 16]);
    let decoder = XasrDecoder::new(weights, 2, 0);
    let output = decoder.decode_context(&Floats, &[1, 2]).unwrap();
    assert_eq!(floats(&output), vec![0.0; 4]);
}

#[test]
fn decode_context_refuses_wrong_contexts() {
    let decoder = XasrDecoder::new(predictor_weights(), 2, 0);
    assert_eq!(
        decoder.decode_context(&Floats, &[1]).unwrap_err(),
        "xasr decoder expected context_size 2, got 1"
    );
    assert_eq!(
        decoder.decode_context(&Floats, &[1, 9]).unwrap_err(),
        "xasr decoder token id 9 out of range for vocab 3"
    );
}

#[test]
fn applies_tanh_before_output_linear() {
    let joiner = XasrJoiner::new(XasrJoinerWeights {
        encoder_proj_weight: identity("enc", 2),
        encoder_proj_bias: bits(&[0.0, 0.0]),
        decoder_proj_weight: identity("dec", 2),
        decoder_proj_bias: bits(&[0.0, 0.0]),
        output_linear_weight: linear("out", 2, 2, &[1.0, 0.0, 0.0, 1.0]),
        output_linear_bias: bits(&[0.0, 0.0]),
    });
    let logits = joiner
        .logits(&Floats, &bits(&[1.0, -1.0]), &bits(&[1.0, 3.0]))
        .unwrap();
    let logits = floats(&logits);
    assert!((logits[0] - 2.0_f32.tanh()).abs() < 1.0e-6);
    assert!((logits[1] - 2.0_f32.tanh()).abs() < 1.0e-6);
}

#[test]
fn joiner_refuses_projections_of_different_widths() {
    let mut weights = joiner_weights();
    weights.decoder_proj_weight = linear("dec", 2, 1, &[1.0, 1.0]);
    weights.decoder_proj_bias = bits(&[0.0]);
    let joiner = XasrJoiner::new(weights);
    assert_eq!(
        joiner
            .logits(&Floats, &bits(&[1.0, 0.0]), &bits(&[1.0, 0.0]))
            .unwrap_err(),
        "xasr joiner projected dims differ: encoder 2 vs decoder 1"
    );
}

#[test]
fn argmax_uses_last_index_on_exact_ties() {
    assert_eq!(argmax(&bits(&[3.0, 7.0, 7.0, 2.0])), Some(2));
    assert_eq!(argmax(&bits(&[f32::NAN, 7.0, 7.0])), Some(2));
    assert_eq!(
        argmax(&bits(&[2.0, 1.0, 5.0, 5.0])),
        Some(3),
        "XASR host last-max must keep the last equal maximum"
    );
}

#[test]
fn argmax_orders_signs_and_skips_what_is_not_finite() {
    assert_eq!(argmax(&bits(&[-1.0, -2.0])), Some(0));
    assert_eq!(argmax(&bits(&[0.0, -0.0])), Some(0));
    assert_eq!(argmax(&bits(&[f32::INFINITY, 1.0, f32::NEG_INFINITY])), Some(1));
    assert_eq!(argmax(&bits(&[f32::NAN, f32::INFINITY])), None);
    assert_eq!(argmax(&[]), None);
}

#[test]
fn softmax_rows_sum_to_one() {
    let rows = softmax_last_dim(&Floats, &bits(&[0.0, 0.0, 1.0, 1.0]), 2).unwrap();
    assert_eq!(floats(&rows), vec![0.5, 0.5, 0.5, 0.5]);
    assert_eq!(
        softmax_last_dim(&Floats, &bits(&[0.0]), 0).unwrap_err(),
        "xasr softmax width must be > 0"
    );
    assert_eq!(
        softmax_last_dim(&Floats, &bits(&[0.0, 1.0, 2.0]), 2).unwrap_err(),
        "xasr softmax input has 3 values, not divisible by width 2"
    );
    assert_eq!(
        softmax_last_dim(&Floats, &bits(&[f32::NEG_INFINITY, f32::NEG_INFINITY]), 2).unwrap_err(),
        "xasr softmax produced non-finite normalization"
    );
}

#[test]
fn softmax_lies_between_zero_and_one() {
    let logits = [-3.5, 0.25, 80.0, f32::NEG_INFINITY, -0.0, 12.5, 1.0e-30, 7.0];
    let rows = softmax_last_dim(&Floats, &bits(&logits), 4).unwrap();
    assert!(floats(&rows).iter().all(|entry| (0.0..=1.0).contains(entry)));
    assert_eq!(floats(&rows)[3], 0.0);
}

#[test]
fn greedy_emits_until_blank_and_advances_context() {
    let decoder = XasrDecoder::new(decoder_weights(), 2, 0);
    let joiner = XasrJoiner::new(joiner_weights());
    let result = greedy_decode_frames_with_limit(
        &Floats,
        &bits(&[1.0, 0.0, 0.0, 1.0]),
        2,
        2,
        &decoder,
        &joiner,
        &decode_words,
        0,
        1,
    )
    .unwrap();
    assert_eq!(result.emissions.token_ids, vec![1, 2]);
    assert_eq!(result.text, "A B");
    assert_eq!(result.emissions.emit_frames, vec![0, 1]);
    assert_eq!(result.encoder_frames, 2);
    assert_eq!(result.emissions.emit_probabilities.len(), 2);
    // The fixture joiner separates the winner by 8 logits; its softmax
    // probability must reflect near-certainty.
    assert!(result
        .emissions
        .emit_probabilities
        .iter()
        .all(|p| float(*p) > 0.99));
}

#[test]
fn a_search_without_limit_takes_the_usual_number_of_tokens() {
    assert_eq!(DEFAULT_MAX_SYMBOLS_PER_FRAME, 8);
    let decoder = XasrDecoder::new(decoder_weights(), 2, 0);
    let joiner = XasrJoiner::new(joiner_weights());
    let result = greedy_decode_frames(
        &Floats,
        &bits(&[9.0, 0.0]),
        1,
        2,
        &decoder,
        &joiner,
        &decode_words,
        0,
    )
    .unwrap();
    assert_eq!(result.emissions.token_ids, vec![1; 8]);
    assert_eq!(result.emissions.emit_frames, vec![0; 8]);
}

#[test]
fn greedy_search_checks_the_shape_of_frames() {
    let decoder = XasrDecoder::new(decoder_weights(), 2, 0);
    let joiner = XasrJoiner::new(joiner_weights());
    let wrong = greedy_decode_frames(
        &Floats,
        &bits(&[1.0, 0.0, 0.0]),
        2,
        2,
        &decoder,
        &joiner,
        &decode_words,
        0,
    );
    assert_eq!(
        refusal(wrong),
        "xasr greedy got 3 encoder values, expected 4"
    );
    let huge = greedy_decode_frames(
        &Floats,
        &[],
        usize::MAX,
        2,
        &decoder,
        &joiner,
        &decode_words,
        0,
    );
    assert_eq!(refusal(huge), "xasr greedy encoder shape overflow");
}

#[test]
fn incremental_emit_frames_are_offset_to_absolute_stream_frames() {
    let decoder = XasrDecoder::new(decoder_weights(), 2, 0);
    let joiner = XasrJoiner::new(joiner_weights());
    let mut context = decoder.initial_context();
    let mut emissions = nothing_found();
    greedy_decode_frames_incremental(
        &Floats,
        &bits(&[1.0, 0.0, 0.0, 1.0]),
        2,
        2,
        &decoder,
        &joiner,
        0,
        1,
        &mut context,
        &mut emissions,
        7,
        &|| false,
    )
    .unwrap();
    assert_eq!(emissions.token_ids.len(), emissions.emit_frames.len());
    assert_eq!(
        emissions.token_ids.len(),
        emissions.emit_probabilities.len()
    );
    assert_eq!(emissions.emit_frames, vec![7, 8]);
}

#[test]
fn chunks_find_what_one_search_finds() {
    let decoder = XasrDecoder::new(decoder_weights(), 2, 0);
    let joiner = XasrJoiner::new(joiner_weights());
    let frames = bits(&[
        1.0, 0.0, 0.0, 1.0, 0.5, 0.25, 2.0, -1.0, 0.0, 3.0, 0.1, 0.2,
    ]);
    let mut whole_context = decoder.initial_context();
    let mut whole = nothing_found();
    greedy_decode_frames_incremental(
        &Floats,
        &frames,
        6,
        2,
        &decoder,
        &joiner,
        0,
        3,
        &mut whole_context,
        &mut whole,
        0,
        &|| false,
    )
    .unwrap();
    for first in 0..7 {
        let mut context = decoder.initial_context();
        let mut found = nothing_found();
        for (from, to) in [(0, first), (first, 6)] {
            greedy_decode_frames_incremental(
                &Floats,
                &frames[from * 2..to * 2],
                to - from,
                2,
                &decoder,
                &joiner,
                0,
                3,
                &mut context,
                &mut found,
                from,
                &|| false,
            )
            .unwrap();
        }
        assert_eq!(found.token_ids, whole.token_ids);
        assert_eq!(found.emit_frames, whole.emit_frames);
        assert_eq!(found.emit_probabilities, whole.emit_probabilities);
        assert_eq!(context, whole_context);
    }
    assert!(!whole.token_ids.is_empty());
}

#[test]
fn greedy_decode_polls_cancellation_at_frame_boundaries() {
    let decoder = XasrDecoder::new(decoder_weights(), 2, 0);
    let joiner = XasrJoiner::new(joiner_weights());
    let mut context = decoder.initial_context();
    let mut emissions = nothing_found();
    let error = greedy_decode_frames_incremental(
        &Floats,
        &bits(&[1.0, 0.0, 0.0, 1.0]),
        2,
        2,
        &decoder,
        &joiner,
        0,
        1,
        &mut context,
        &mut emissions,
        0,
        &|| true,
    )
    .expect_err("a canceled decode must fail closed");
    assert!(error.contains("canceled"), "{error}");
    assert!(
        emissions.token_ids.is_empty(),
        "cancel polling must remain frame-local and emit nothing"
    );
}

#[test]
fn a_search_that_is_canceled_later_keeps_what_it_found() {
    let decoder = XasrDecoder::new(decoder_weights(), 2, 0);
    let joiner = XasrJoiner::new(joiner_weights());
    let mut context = decoder.initial_context();
    let mut emissions = nothing_found();
    let polls = Cell::new(0);
    let error = greedy_decode_frames_incremental(
        &Floats,
        &bits(&[1.0, 0.0, 0.0, 1.0]),
        2,
        2,
        &decoder,
        &joiner,
        0,
        1,
        &mut context,
        &mut emissions,
        0,
        &|| {
            polls.set(polls.get() + 1);
            polls.get() > 1
        },
    )
    .unwrap_err();
    assert_eq!(error, "xasr-zipformer decode canceled at encoder frame 1");
    assert_eq!(emissions.token_ids, vec![1]);
}

struct SpeculativeTestBackend {
    blank_prefix: usize,
    projected_frames: Vec<Vec<f32>>,
    projected_contexts: usize,
    tokens: VecDeque<u32>,
}

impl XasrGreedyDecodeBackend for SpeculativeTestBackend {
    fn calls(&self) -> CallRecord {
        unreachable!("the record of the calls exists in proofs alone")
    }

    fn project_encoder_frame(&mut self, frame: &[u32]) -> Result<(), String> {
        self.projected_frames.push(floats(frame));
        Ok(())
    }

    fn project_decoder_context(&mut self, _context: &[u32]) -> Result<(), String> {
        self.projected_contexts += 1;
        Ok(())
    }

    fn next_token(&mut self) -> Result<u32, String> {
        self.tokens
            .pop_front()
            .ok_or_else(|| "speculative test backend ran out of tokens".to_string())
    }

    fn token_probability(&self, _token: u32) -> Result<u32, String> {
        Ok(0.75_f32.to_bits())
    }

    fn speculative_blank_prefix_len(
        &mut self,
        context: Option<&[u32]>,
        _encoder_frames: &[u32],
        _frame_count: usize,
        _encoder_dim: usize,
    ) -> Result<Option<usize>, String> {
        if context.is_some() {
            self.projected_contexts += 1;
        }
        Ok(Some(self.blank_prefix))
    }
}

#[test]
fn speculative_blank_prefix_skips_only_confirmed_frames_then_uses_scalar_path() {
    let mut backend = SpeculativeTestBackend {
        blank_prefix: 2,
        projected_frames: Vec::new(),
        projected_contexts: 0,
        tokens: [1, 0].into_iter().collect(),
    };
    let mut context = vec![0, 0];
    let mut emissions = nothing_found();

    let count = greedy_decode_frames_incremental_with_backend(
        &bits(&[10.0, 11.0, 20.0, 21.0, 30.0, 31.0]),
        3,
        2,
        &mut backend,
        0,
        2,
        &mut context,
        &mut emissions,
        7,
        &|| false,
    )
    .expect("speculative blank prefix decode");

    assert_eq!(count, 1);
    assert_eq!(emissions.token_ids, vec![1]);
    assert_eq!(emissions.emit_frames, vec![9]);
    assert_eq!(floats(&emissions.emit_probabilities), vec![0.75]);
    assert_eq!(context, vec![0, 1]);
    assert_eq!(backend.projected_frames, vec![vec![30.0, 31.0]]);
    assert_eq!(backend.projected_contexts, 2);
}

#[test]
fn speculative_blank_prefix_rejects_backend_overrun() {
    let mut backend = SpeculativeTestBackend {
        blank_prefix: 3,
        projected_frames: Vec::new(),
        projected_contexts: 0,
        tokens: VecDeque::new(),
    };
    let mut context = vec![0, 0];
    let mut emissions = nothing_found();

    let error = greedy_decode_frames_incremental_with_backend(
        &bits(&[1.0, 2.0, 3.0, 4.0]),
        2,
        2,
        &mut backend,
        0,
        1,
        &mut context,
        &mut emissions,
        0,
        &|| false,
    )
    .expect_err("speculative prefix beyond remaining frames must fail closed");

    assert!(error.contains("exceeds remaining frames"), "{error}");
    assert!(emissions.token_ids.is_empty());
}

/// A backend that refuses to weigh its first token.
struct UnweighingBackend {
    tokens: VecDeque<u32>,
    weighs: bool,
}

impl XasrGreedyDecodeBackend for UnweighingBackend {
    fn calls(&self) -> CallRecord {
        unreachable!("the record of the calls exists in proofs alone")
    }

    fn project_encoder_frame(&mut self, _frame: &[u32]) -> Result<(), String> {
        Ok(())
    }

    fn project_decoder_context(&mut self, _context: &[u32]) -> Result<(), String> {
        Ok(())
    }

    fn next_token(&mut self) -> Result<u32, String> {
        self.tokens.pop_front().ok_or_else(|| "no token is left".to_string())
    }

    fn token_probability(&self, token: u32) -> Result<u32, String> {
        if self.weighs {
            Ok(0.5_f32.to_bits())
        } else {
            Err(format!("token {token} cannot be weighed"))
        }
    }

    fn speculative_blank_prefix_len(
        &mut self,
        _context: Option<&[u32]>,
        _encoder_frames: &[u32],
        _frame_count: usize,
        _encoder_dim: usize,
    ) -> Result<Option<usize>, String> {
        Ok(None)
    }
}

#[test]
fn a_search_goes_on_behind_a_token_that_was_not_weighed() {
    let mut backend = UnweighingBackend { tokens: [3, 4, 0].into_iter().collect(), weighs: false };
    let mut context = vec![0, 0];
    let mut emissions = nothing_found();
    let error = greedy_decode_frames_incremental_with_backend(
        &bits(&[1.0]),
        1,
        1,
        &mut backend,
        0,
        2,
        &mut context,
        &mut emissions,
        5,
        &|| false,
    )
    .unwrap_err();
    assert_eq!(error, "token 3 cannot be weighed");
    assert_eq!(emissions.token_ids, vec![3]);
    assert_eq!(emissions.emit_frames, vec![5]);
    assert!(emissions.emit_probabilities.is_empty());

    backend.weighs = true;
    let count = greedy_decode_frames_incremental_with_backend(
        &bits(&[1.0]),
        1,
        1,
        &mut backend,
        0,
        2,
        &mut context,
        &mut emissions,
        6,
        &|| false,
    )
    .unwrap();
    assert_eq!(count, 1);
    assert_eq!(emissions.token_ids, vec![3, 4]);
    assert_eq!(emissions.emit_frames, vec![5, 6]);
    assert_eq!(floats(&emissions.emit_probabilities), vec![0.5]);
}

#[test]
fn the_total_order_tells_all_patterns_apart() {
    let ordered = [
        float(0xffc0_0000),
        f32::NEG_INFINITY,
        -1.0,
        -f32::MIN_POSITIVE,
        -0.0,
        0.0,
        f32::MIN_POSITIVE,
        1.0,
        f32::INFINITY,
    ];
    for pair in ordered.windows(2) {
        let (left, right) = (pair[0].to_bits(), pair[1].to_bits());
        assert!(total_order(left) < total_order(right));
    }
    assert_eq!(total_order(0x8000_0000), -1);
    assert_eq!(total_order(0), 0);
}
