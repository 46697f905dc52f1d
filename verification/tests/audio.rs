//! Features, graph configuration and what surrounds a transcription.

use xasr_zipformer::encoder_weights::StoredLinear;
use xasr_zipformer::executor::{
    check_phrase_bias, check_streaming_adapter, pcm_duration_seconds, segments_from, session_names,
    transcription_from_decode, WordTimestamp,
};
use xasr_zipformer::float_ops::FloatOps;
use xasr_zipformer::frontend::{
    clean_frame_count_for_samples, earliest_sample_needed_for_frame, reflect_index_no_repeat,
    total_frame_count_for_samples, XasrFbankFrontend, XasrFrontendError,
    XASR_FINAL_FLUSH_TAIL_PAD_SAMPLES,
};
use xasr_zipformer::graph_config::{
    xasr_zipformer_device_head_graph_config, xasr_zipformer_encoder_graph_config,
    xasr_zipformer_encoder_graph_config_with_overrides, GgmlCpuGraphBackend, GgmlCpuGraphConfig,
    ModelMetalRuntimeOverrides, DEVICE_HEAD_GRAPH_SIZE, FULL_ENCODER_GRAPH_SIZE,
};
use xasr_zipformer::greedy::{Emissions, XasrGreedyDecodeResult};
use xasr_zipformer::text::push_number;

/// Float operations on the host.
struct Floats;

fn float(bits: u32) -> f32 {
    f32::from_bits(bits)
}

fn bits(values: &[f32]) -> Vec<u32> {
    values.iter().map(|value| value.to_bits()).collect()
}

fn softplus(value: f32) -> f32 {
    value.max(0.0) + (-(value.abs())).exp().ln_1p()
}

impl FloatOps for Floats {
    fn add(&self, left: u32, right: u32) -> u32 {
        (float(left) + float(right)).to_bits()
    }

    fn sub(&self, left: u32, right: u32) -> u32 {
        (float(left) - float(right)).to_bits()
    }

    fn mul(&self, left: u32, right: u32) -> u32 {
        (float(left) * float(right)).to_bits()
    }

    fn div(&self, left: u32, right: u32) -> u32 {
        (float(left) / float(right)).to_bits()
    }

    fn max(&self, left: u32, right: u32) -> u32 {
        float(left).max(float(right)).to_bits()
    }

    fn min(&self, left: u32, right: u32) -> u32 {
        float(left).min(float(right)).to_bits()
    }

    fn exp(&self, value: u32) -> u32 {
        float(value).exp().to_bits()
    }

    fn ln(&self, value: u32) -> u32 {
        float(value).ln().to_bits()
    }

    fn inverse_sqrt(&self, value: u32) -> u32 {
        float(value).powf(-0.5).to_bits()
    }

    fn tanh(&self, value: u32) -> u32 {
        float(value).tanh().to_bits()
    }

    fn sigmoid(&self, value: u32) -> u32 {
        (1.0 / (1.0 + (-float(value)).exp())).to_bits()
    }

    fn softplus(&self, value: u32) -> u32 {
        softplus(float(value)).to_bits()
    }

    fn from_count(&self, count: usize) -> u32 {
        (count as f32).to_bits()
    }

    fn position_angle(&self, dim: usize, offset: i128) -> u32 {
        let compression = (dim as f32).sqrt();
        let length_scale = dim as f32 / (2.0 * std::f32::consts::PI);
        let sign = (offset as f32).signum();
        let distance = (offset as f32).abs();
        let compressed =
            compression * sign * ((distance + compression).ln() - compression.ln());
        (compressed / length_scale).atan().to_bits()
    }

    fn cos_multiple(&self, angle: u32, multiple: usize) -> u32 {
        (float(angle) * multiple as f32).cos().to_bits()
    }

    fn sin_multiple(&self, angle: u32, multiple: usize) -> u32 {
        (float(angle) * multiple as f32).sin().to_bits()
    }

    fn apply_linear(
        &self,
        weight: &StoredLinear,
        input: &[u32],
        bias: Option<&[u32]>,
    ) -> Result<Vec<u32>, String> {
        if input.len() != weight.input_dim {
            return Err(format!(
                "{} takes {} values, got {}",
                weight.name,
                weight.input_dim,
                input.len()
            ));
        }
        let mut output = Vec::new();
        for row in 0..weight.output_dim {
            let mut sum = match bias {
                Some(values) => float(values[row]),
                None => 0.0,
            };
            for column in 0..weight.input_dim {
                sum += float(weight.values[row * weight.input_dim + column]) * float(input[column]);
            }
            output.push(sum.to_bits());
        }
        Ok(output)
    }
}

/// Triangular filters between equally spaced mel points.
fn mel_filters() -> Vec<u32> {
    let mel = |hertz: f32| 1127.0 * (1.0 + hertz / 700.0).ln();
    let hertz = |mel: f32| 700.0 * ((mel / 1127.0).exp() - 1.0);
    let (low, high) = (mel(20.0), mel(7_600.0));
    let point = |index: usize| hertz(low + (high - low) * index as f32 / 81.0);
    let mut filters = Vec::new();
    for filter in 0..80 {
        let (left, middle, right) = (point(filter), point(filter + 1), point(filter + 2));
        for bin in 0..257 {
            let frequency = bin as f32 * 16_000.0 / 512.0;
            let rising = (frequency - left) / (middle - left);
            let falling = (right - frequency) / (right - middle);
            filters.push(rising.min(falling).max(0.0).to_bits());
        }
    }
    filters
}

/// The power spectra of frames, reflected at both ends of the stream.
fn spectra(
    samples: &[u32],
    sample_offset: usize,
    total_len: usize,
    start_frame: usize,
    end_frame: usize,
) -> Result<Vec<u32>, usize> {
    let mut table = Vec::new();
    for k in 0..512 {
        let angle = 2.0 * std::f64::consts::PI * k as f64 / 512.0;
        table.push((angle.cos() as f32, angle.sin() as f32));
    }
    let mut power = Vec::new();
    for frame in start_frame..end_frame {
        let mut window = Vec::new();
        for i in 0..400 {
            let index = (frame * 160 + i) as i64 - 120;
            let sample = reflect_index_no_repeat(total_len, index);
            if sample < sample_offset {
                return Err(frame);
            }
            let hann = 0.5 - 0.5 * (2.0 * std::f32::consts::PI * i as f32 / 399.0).cos();
            window.push(float(samples[sample - sample_offset]) * hann.powf(0.85));
        }
        for bin in 0..257 {
            let (mut real, mut imaginary) = (0.0_f32, 0.0_f32);
            for (i, value) in window.iter().enumerate() {
                let (cos, sin) = table[bin * i % 512];
                real += value * cos;
                imaginary -= value * sin;
            }
            power.push((real * real + imaginary * imaginary).to_bits());
        }
    }
    Ok(power)
}

fn tone(hertz: f32, len: usize) -> Vec<u32> {
    (0..len)
        .map(|i| {
            let phase = 2.0 * std::f32::consts::PI * hertz * i as f32 / 16_000.0;
            (phase.sin() * 0.1).to_bits()
        })
        .collect()
}

#[test]
fn produces_finite_80_bin_fbank() {
    let samples = tone(440.0, 16_000);
    let features = XasrFbankFrontend::new(mel_filters())
        .features_from_samples(&Floats, &spectra, &samples)
        .expect("features");
    assert_eq!(features.n_mels, 80);
    assert!(features.n_frames >= 99 && features.n_frames <= 101);
    assert_eq!(features.data.len(), features.n_frames * features.n_mels);
    assert!(features.data.iter().all(|v| float(*v).is_finite()));
}

#[test]
fn frame_range_matches_full_computation() {
    let samples = tone(313.0, 8_000);
    let frontend = XasrFbankFrontend::new(mel_filters());
    let full = frontend
        .features_from_samples(&Floats, &spectra, &samples)
        .expect("full");
    let head = frontend
        .features_for_frame_range(&Floats, &spectra, &samples, 0, 7)
        .expect("head");
    let tail = frontend
        .features_for_frame_range(&Floats, &spectra, &samples, 7, full.n_frames)
        .expect("tail");
    assert_eq!(head.len(), 7 * full.n_mels);
    assert_eq!(head, full.data[..7 * full.n_mels]);
    assert_eq!(tail, full.data[7 * full.n_mels..]);
}

#[test]
fn clean_frames_wait_until_right_edge_is_real_audio() {
    assert_eq!(clean_frame_count_for_samples(279), 0);
    assert_eq!(clean_frame_count_for_samples(280), 1);
    assert_eq!(clean_frame_count_for_samples(440), 2);
}

#[test]
fn clean_frames_are_stable_as_audio_grows() {
    let long = tone(313.0, 8_000);
    // Frame i reads samples [i*160-120, i*160+280); with 4000 samples the
    // first (4000-280)/160+1 = 24 frames are free of right-edge reflection.
    let short = &long[..4_000];
    let frontend = XasrFbankFrontend::new(mel_filters());
    let from_short = frontend
        .features_for_frame_range(&Floats, &spectra, short, 0, 24)
        .expect("short clean frames");
    let from_long = frontend
        .features_for_frame_range(&Floats, &spectra, &long, 0, 24)
        .expect("long clean frames");
    assert_eq!(from_short, from_long);
}

#[test]
fn drained_samples_are_not_needed_again() {
    let samples = tone(313.0, 8_000);
    let frontend = XasrFbankFrontend::new(mel_filters());
    let whole = frontend
        .features_for_frame_range(&Floats, &spectra, &samples, 20, 24)
        .expect("whole");
    let from = earliest_sample_needed_for_frame(20);
    assert_eq!(from, 20 * 160 - 120);
    let rest = frontend
        .features_for_frame_range_from(&Floats, &spectra, &samples[from..], from, 20, 24)
        .expect("rest");
    assert_eq!(whole, rest);
    let missing = frontend
        .features_for_frame_range_from(&Floats, &spectra, &samples[from..], from, 19, 24)
        .unwrap_err();
    assert_eq!(missing, XasrFrontendError::MissingPrefix { frame: 19 });
    assert_eq!(
        missing.message(),
        "xasr frontend was asked for frame 19 whose samples were already drained"
    );
}

#[test]
fn unusable_audio_is_refused() {
    let frontend = XasrFbankFrontend::new(mel_filters());
    let refused = |samples: &[u32]| {
        frontend
            .features_from_samples(&Floats, &spectra, samples)
            .unwrap_err()
    };
    assert_eq!(refused(&[]), XasrFrontendError::UnsupportedAudio);
    let broken = bits(&[0.0, f32::NAN]);
    assert_eq!(
        refused(&broken).message(),
        "xasr frontend requires finite 16 kHz mono f32 audio"
    );
    let short = bits(&[0.0; 79]);
    assert_eq!(refused(&short), XasrFrontendError::NoFrames { samples: 79 });
    assert_eq!(
        refused(&short).message(),
        "xasr frontend produced no fbank frames from 79 samples"
    );
    let samples = tone(313.0, 800);
    let beyond = frontend
        .features_for_frame_range(&Floats, &spectra, &samples, 0, 6)
        .unwrap_err();
    assert_eq!(beyond, XasrFrontendError::NoFrames { samples: 800 });
    let reversed = frontend
        .features_for_frame_range(&Floats, &spectra, &samples, 3, 2)
        .unwrap_err();
    assert_eq!(reversed, XasrFrontendError::NoFrames { samples: 800 });
}

#[test]
fn frames_are_counted_to_the_nearest_shift() {
    assert_eq!(total_frame_count_for_samples(0), 0);
    assert_eq!(total_frame_count_for_samples(79), 0);
    assert_eq!(total_frame_count_for_samples(80), 1);
    assert_eq!(total_frame_count_for_samples(16_000), 100);
    assert_eq!(earliest_sample_needed_for_frame(0), 0);
    assert_eq!(XASR_FINAL_FLUSH_TAIL_PAD_SAMPLES, 12_800);
}

#[test]
fn reflection_stays_in_bounds() {
    let values = (-20i64..20)
        .map(|i| reflect_index_no_repeat(5, i))
        .collect::<Vec<_>>();
    assert!(values.iter().all(|&i| i < 5));
    assert_eq!(reflect_index_no_repeat(5, -1), 1);
    assert_eq!(reflect_index_no_repeat(5, 5), 3);
    assert_eq!(reflect_index_no_repeat(usize::MAX, i64::MIN), 1usize << 63);
}

fn context_bytes(graph_size: usize) -> usize {
    graph_size * 400 + 4_096
}

fn base_with(backend: GgmlCpuGraphBackend, n_threads: Option<usize>) -> GgmlCpuGraphConfig {
    GgmlCpuGraphConfig {
        backend,
        graph_size: 2_048,
        context_bytes: 16 * 1024 * 1024,
        n_threads,
        use_scheduler: backend.is_gpu_class(),
    }
}

const DECODER_THREADS: Option<usize> = Some(3);

#[test]
fn config_reserves_full_encoder_graph_capacity() {
    let config = xasr_zipformer_encoder_graph_config_with_overrides(
        base_with(GgmlCpuGraphBackend::Cpu, None),
        false,
        &context_bytes,
        DECODER_THREADS,
    );
    assert!(config.graph_size >= FULL_ENCODER_GRAPH_SIZE);
    assert!(config.context_bytes >= context_bytes(FULL_ENCODER_GRAPH_SIZE));
}

#[test]
fn full_encoder_contexts_stay_within_cpu_commit_budget() {
    let config = xasr_zipformer_encoder_graph_config_with_overrides(
        base_with(GgmlCpuGraphBackend::Cpu, None),
        false,
        &context_bytes,
        DECODER_THREADS,
    );
    // Three coexisting contexts must stay well under a CPU commit budget...
    assert!(config.context_bytes * 3 < 256 * 1024 * 1024);
    // ...while still exceeding the ~7 MB that the graph uses.
    assert!(config.context_bytes > 7 * 1024 * 1024);
}

#[test]
fn gpu_encoder_keeps_the_resolved_single_gpu_backend() {
    let config = xasr_zipformer_encoder_graph_config_with_overrides(
        base_with(GgmlCpuGraphBackend::Metal, None),
        false,
        &context_bytes,
        DECODER_THREADS,
    );

    // GPU runs single-backend, so no multi-backend scheduler / CPU fallback.
    assert_eq!(config.backend, GgmlCpuGraphBackend::Metal);
    assert!(!config.use_scheduler);
}

#[test]
fn config_uses_chunk_friendly_cpu_threads_when_unset() {
    let config = xasr_zipformer_encoder_graph_config_with_overrides(
        base_with(GgmlCpuGraphBackend::Cpu, None),
        false,
        &context_bytes,
        DECODER_THREADS,
    );

    assert_eq!(config.n_threads, DECODER_THREADS);
}

#[test]
fn config_keeps_explicit_cpu_threads() {
    let config = xasr_zipformer_encoder_graph_config_with_overrides(
        base_with(GgmlCpuGraphBackend::Cpu, Some(2)),
        true,
        &context_bytes,
        DECODER_THREADS,
    );

    assert_eq!(config.n_threads, Some(2));
}

#[test]
fn device_head_graphs_are_small() {
    let environment = |unset: ModelMetalRuntimeOverrides| {
        let mut config = base_with(GgmlCpuGraphBackend::Gpu, unset.default_n_threads_when_unset);
        config.use_scheduler = unset.default_use_scheduler_when_unset.unwrap_or(true);
        config
    };
    let with_node_capacity = |mut config: GgmlCpuGraphConfig, nodes: usize| {
        assert_eq!(nodes, DEVICE_HEAD_GRAPH_SIZE);
        config.graph_size = nodes;
        config.context_bytes = context_bytes(nodes);
        config
    };
    let config = xasr_zipformer_device_head_graph_config(&environment, &with_node_capacity);
    assert_eq!(config.context_bytes, context_bytes(DEVICE_HEAD_GRAPH_SIZE));
    assert_eq!(config.backend, GgmlCpuGraphBackend::Gpu);
    assert!(config.graph_size >= DEVICE_HEAD_GRAPH_SIZE);
    assert_eq!(config.n_threads, Some(1));
    assert!(!config.use_scheduler);
}

#[test]
fn configuring_twice_changes_nothing() {
    for backend in [GgmlCpuGraphBackend::Cpu, GgmlCpuGraphBackend::Metal] {
        let environment = |unset: ModelMetalRuntimeOverrides| {
            assert_eq!(unset.default_n_threads_when_unset, None);
            assert_eq!(unset.default_use_scheduler_when_unset, None);
            base_with(backend, None)
        };
        let once = xasr_zipformer_encoder_graph_config(
            &environment,
            false,
            &context_bytes,
            DECODER_THREADS,
        );
        let twice = xasr_zipformer_encoder_graph_config_with_overrides(
            once,
            false,
            &context_bytes,
            DECODER_THREADS,
        );
        assert_eq!(once, twice);
    }
}

fn decoded(text: &str) -> XasrGreedyDecodeResult {
    XasrGreedyDecodeResult {
        emissions: Emissions {
            token_ids: vec![1],
            emit_frames: vec![0],
            emit_probabilities: bits(&[0.5]),
        },
        text: text.to_string(),
        encoder_frames: 3,
    }
}

#[test]
fn words_end_with_the_utterance() {
    let timed = |_: &XasrGreedyDecodeResult, duration: u32| {
        assert!((float(duration) - 2.8).abs() < 1.0e-6);
        Ok(vec![WordTimestamp {
            word: "late".to_string(),
            start: 1.5_f32.to_bits(),
            end: 2.5_f32.to_bits(),
            confidence: None,
        }])
    };
    let duration = pcm_duration_seconds(&Floats, &vec![0; 32_000]);
    assert_eq!(float(duration), 2.0);
    let spoken = transcription_from_decode(&Floats, &timed, decoded("late"), true, duration).unwrap();
    assert_eq!(spoken.text, "late");
    assert_eq!(float(spoken.words[0].start), 1.5);
    assert_eq!(float(spoken.words[0].end), 2.0);
    let segments = segments_from(spoken, duration);
    assert_eq!(segments.len(), 1);
    assert_eq!(float(segments[0].end), 2.0);
    let untimed = |_: &XasrGreedyDecodeResult, _: u32| Err("no words".to_string());
    let plain = transcription_from_decode(&Floats, &untimed, decoded("text"), false, duration).unwrap();
    assert!(plain.words.is_empty());
    let failed = transcription_from_decode(&Floats, &untimed, decoded("text"), true, duration);
    assert_eq!(failed.unwrap_err(), "no words");
    let silent = transcription_from_decode(&Floats, &untimed, decoded(""), false, duration).unwrap();
    assert!(segments_from(silent, duration).is_empty());
}

#[test]
fn unsupported_requests_are_refused() {
    assert_eq!(check_phrase_bias(false), Ok(()));
    assert_eq!(
        check_phrase_bias(true),
        Err("xasr-zipformer phrase bias is not supported".to_string())
    );
    assert_eq!(check_streaming_adapter("xasr", "xasr"), Ok(()));
    assert_eq!(
        check_streaming_adapter("xasr", "other"),
        Err("xasr-zipformer streaming executor requires adapter 'xasr', got 'other'".to_string())
    );
    assert_eq!(
        session_names("7"),
        ("utt_7".to_string(), "seg_7".to_string())
    );
}

fn written(number: usize) -> String {
    let mut text = String::new();
    push_number(&mut text, number);
    text
}

#[test]
fn numbers_are_written_in_decimal() {
    for (number, text) in [(0, "0"), (7, "7"), (10, "10"), (907, "907")] {
        assert_eq!(written(number), text);
    }
    assert_eq!(written(usize::MAX), usize::MAX.to_string());
}
