//! The encoder, predictor and joiner: on the host and as recorded graphs.

use std::cell::RefCell;
use std::collections::BTreeMap;

use xasr_zipformer::chunk_steps::ChunkStep;
use xasr_zipformer::decoder::{XasrDecoder, XasrDecoderWeights};
use xasr_zipformer::device_head_graph::{
    build_decoder_projection, checked_payload, load_head_payloads, plan_device_head,
    plan_head_weights, DeviceHeadPlan, HeadPayload, HeadPayloads, HeadShape, HeadSource,
    XasrDeviceHead,
};
use xasr_zipformer::encoder_error::XasrEncoderGraphError;
use xasr_zipformer::encoder_graph::{
    XasrEncoderChunkOutput, XasrEncoderChunkState, XasrZipformerEncoderGraph,
};
use xasr_zipformer::encoder_loading::{
    ensure_dims, layer_prefix, load_xasr_encoder_weights, WeightSource, XasrWeightsError,
};
use xasr_zipformer::encoder_rows::{
    concat_frame_rows_reference, slice_frame_rows_reference, XasrEncoderFeatureInput,
    XasrEncoderGraphOutput,
};
use xasr_zipformer::encoder_tables::{
    attention_mask_values_for_graph, chunkwise_conv_scale_for_graph,
    compact_relative_positional_encoding_for_graph, streaming_key_padding_mask,
};
use xasr_zipformer::encoder_upload::{
    XasrEncoderLayerCache, SWOOSH_L_OFFSET, SWOOSH_L_SHIFT, SWOOSH_R_OFFSET, SWOOSH_R_SHIFT,
};
use xasr_zipformer::encoder_weights::{
    NamedTensor, StoredLinear, XasrConv1dWeights, XasrConv2dWeights, XasrConvolutionModuleWeights,
    XasrEncoderEmbedWeights, XasrEncoderWeights, XasrLinearPairWeights, XasrLinearWithBias,
};
use xasr_zipformer::float_ops::FloatOps;
use xasr_zipformer::full_upload::upload_caches;
use xasr_zipformer::graph::{GgmlCpuGraphBuilder, GgmlCpuTensor, GraphEffect, GraphNode};
use xasr_zipformer::graph_config::{GgmlCpuGraphBackend, GgmlCpuGraphConfig};
use xasr_zipformer::greedy::argmax;
use xasr_zipformer::joiner::{XasrJoiner, XasrJoinerWeights};
use xasr_zipformer::layer_graph::{
    apply_bias_norm_graph, apply_bypass_graph, apply_conv_in_proj_glu_graph,
    apply_convolution_module_graph, apply_depthwise_conv1d_channel_major_graph,
    apply_depthwise_mix_channel_major_graph, apply_feed_forward_graph, apply_swoosh_l_graph,
    apply_swoosh_r_graph, softmax_for_graph, XasrConvolutionModuleGraphShape,
    XasrConvolutionModuleGraphTensors, XasrDepthwiseMixGraphTensors, XasrDepthwiseMixShape,
    XasrFeedForwardGraphTensors,
};
use xasr_zipformer::package_names::compact_xasr_name;
use xasr_zipformer::reference_attention::compact_relative_positional_encoding;
use xasr_zipformer::reference_conv::{
    depthwise_conv1d_same_channel_major, depthwise_conv1d_valid_channel_major,
};
use xasr_zipformer::reference_conv_module::convolution_module_streaming_reference;
use xasr_zipformer::reference_embed::{conv2d_nchw, Sliding, Tensor4};
use xasr_zipformer::reference_embedding::encode_embed_reference;
use xasr_zipformer::reference_facade::{EncodeStep, FeatureStep};
use xasr_zipformer::reference_layer::{
    zipformer_layer_streaming_reference, XasrZipformerLayerReferenceCaches,
};
use xasr_zipformer::reference_rows::{
    apply_swoosh_l, apply_swoosh_r, bias_norm_last_dim, bypass_reference, feed_forward_reference,
    swoosh_l, swoosh_r,
};
use xasr_zipformer::reference_scale::{
    downsample_streaming_reference, resize_frame_rows_reference, upsample_streaming_reference,
};
use xasr_zipformer::reference_values::self_attention_streaming_reference;
use xasr_zipformer::runtime_contract::XasrZipformerExecutionMetadata;
use xasr_zipformer::tensor_value::{ConvParams, Shape4};

/// Float operations on the host.
struct Floats;

fn float(bits: u32) -> f32 {
    f32::from_bits(bits)
}

fn bits(values: &[f32]) -> Vec<u32> {
    values.iter().map(|value| value.to_bits()).collect()
}

fn floats(values: &[u32]) -> Vec<f32> {
    values.iter().map(|value| float(*value)).collect()
}

fn softplus(value: f32) -> f32 {
    value.max(0.0) + (-(value.abs())).exp().ln_1p()
}

impl FloatOps for Floats {
    fn add(&self, left: u32, right: u32) -> u32 {
        (float(left) + float(right)).to_bits()
    }

    fn sub(&self, left: u32, right: u32) -> u32 {
        (float(left) - float(right)).to_bits()
    }

    fn mul(&self, left: u32, right: u32) -> u32 {
        (float(left) * float(right)).to_bits()
    }

    fn div(&self, left: u32, right: u32) -> u32 {
        (float(left) / float(right)).to_bits()
    }

    fn max(&self, left: u32, right: u32) -> u32 {
        float(left).max(float(right)).to_bits()
    }

    fn min(&self, left: u32, right: u32) -> u32 {
        float(left).min(float(right)).to_bits()
    }

    fn exp(&self, value: u32) -> u32 {
        float(value).exp().to_bits()
    }

    fn ln(&self, value: u32) -> u32 {
        float(value).ln().to_bits()
    }

    fn inverse_sqrt(&self, value: u32) -> u32 {
        float(value).powf(-0.5).to_bits()
    }

    fn tanh(&self, value: u32) -> u32 {
        float(value).tanh().to_bits()
    }

    fn sigmoid(&self, value: u32) -> u32 {
        (1.0 / (1.0 + (-float(value)).exp())).to_bits()
    }

    fn softplus(&self, value: u32) -> u32 {
        softplus(float(value)).to_bits()
    }

    fn from_count(&self, count: usize) -> u32 {
        (count as f32).to_bits()
    }

    fn position_angle(&self, dim: usize, offset: i128) -> u32 {
        let compression = (dim as f32).sqrt();
        let length_scale = dim as f32 / (2.0 * std::f32::consts::PI);
        let sign = (offset as f32).signum();
        let distance = (offset as f32).abs();
        let compressed =
            compression * sign * ((distance + compression).ln() - compression.ln());
        (compressed / length_scale).atan().to_bits()
    }

    fn cos_multiple(&self, angle: u32, multiple: usize) -> u32 {
        (float(angle) * multiple as f32).cos().to_bits()
    }

    fn sin_multiple(&self, angle: u32, multiple: usize) -> u32 {
        (float(angle) * multiple as f32).sin().to_bits()
    }

    fn apply_linear(
        &self,
        weight: &StoredLinear,
        input: &[u32],
        bias: Option<&[u32]>,
    ) -> Result<Vec<u32>, String> {
        if input.len() != weight.input_dim {
            return Err(format!(
                "{} takes {} values, got {}",
                weight.name,
                weight.input_dim,
                input.len()
            ));
        }
        let mut output = Vec::new();
        for row in 0..weight.output_dim {
            let mut sum = match bias {
                Some(values) => float(values[row]),
                None => 0.0,
            };
            for column in 0..weight.input_dim {
                sum += float(weight.values[row * weight.input_dim + column]) * float(input[column]);
            }
            output.push(sum.to_bits());
        }
        Ok(output)
    }
}

fn linear(name: &str, input_dim: usize, output_dim: usize, values: &[f32]) -> StoredLinear {
    StoredLinear {
        name: name.to_string(),
        input_dim,
        output_dim,
        values: bits(values),
        native: None,
    }
}

fn named(name: &str, dims: &[usize], values: &[f32]) -> NamedTensor {
    NamedTensor {
        name: name.to_string(),
        dims: dims.to_vec(),
        values: bits(values),
    }
}

fn assert_max_abs_diff(name: &str, actual: &[u32], expected: &[f32], tolerance: f32) {
    assert_eq!(actual.len(), expected.len(), "{name} length");
    for (index, (left, right)) in actual.iter().zip(expected).enumerate() {
        let difference = (float(*left) - right).abs();
        assert!(difference <= tolerance, "{name}[{index}] differs by {difference}");
    }
}

fn with_bias(weight: StoredLinear, bias: &[f32]) -> XasrLinearWithBias {
    XasrLinearWithBias { weight, bias: bits(bias) }
}

fn sigmoid_reference(value: f32) -> f32 {
    1.0 / (1.0 + (-value).exp())
}

fn depthwise_conv1d_channel_major_reference(
    input: &[f32],
    kernel: &[f32],
    bias: &[f32],
    channels: usize,
    input_len: usize,
    kernel_len: usize,
    padding: usize,
) -> Vec<f32> {
    assert_eq!(input.len(), channels * input_len);
    assert_eq!(kernel.len(), channels * kernel_len);
    assert_eq!(bias.len(), channels);
    let output_len = input_len + 2 * padding - kernel_len + 1;
    let mut output = vec![0.0_f32; channels * output_len];
    for c in 0..channels {
        for t in 0..output_len {
            let mut sum = bias[c];
            for k in 0..kernel_len {
                let Some(input_t) = (t + k).checked_sub(padding) else {
                    continue;
                };
                if input_t >= input_len {
                    continue;
                }
                sum += input[c * input_len + input_t] * kernel[c * kernel_len + k];
            }
            output[c * output_len + t] = sum;
        }
    }
    output
}

/// A tensor with its elements in row-major order.
#[derive(Clone)]
struct Array {
    ne: [usize; 4],
    data: Vec<f32>,
}

impl Array {
    fn new(ne: [usize; 4], at: impl Fn(usize, usize, usize, usize) -> f32) -> Array {
        let mut data = Vec::new();
        for i3 in 0..ne[3] {
            for i2 in 0..ne[2] {
                for i1 in 0..ne[1] {
                    for i0 in 0..ne[0] {
                        data.push(at(i0, i1, i2, i3));
                    }
                }
            }
        }
        Array { ne, data }
    }

    fn at(&self, i0: usize, i1: usize, i2: usize, i3: usize) -> f32 {
        self.data[((i3 * self.ne[2] + i2) * self.ne[1] + i1) * self.ne[0] + i0]
    }

    fn repeated(&self, i0: usize, i1: usize, i2: usize, i3: usize) -> f32 {
        self.at(
            i0 % self.ne[0],
            i1 % self.ne[1],
            i2 % self.ne[2],
            i3 % self.ne[3],
        )
    }

    fn map(&self, f: impl Fn(f32) -> f32) -> Array {
        Array {
            ne: self.ne,
            data: self.data.iter().map(|value| f(*value)).collect(),
        }
    }

    fn zip(&self, other: &Array, f: impl Fn(f32, f32) -> f32) -> Array {
        Array::new(self.ne, |i0, i1, i2, i3| {
            f(self.at(i0, i1, i2, i3), other.repeated(i0, i1, i2, i3))
        })
    }

    fn padded(&self, i0: i64, i1: i64, i2: usize, i3: usize) -> f32 {
        if i0 < 0 || i1 < 0 || i0 >= self.ne[0] as i64 || i1 >= self.ne[1] as i64 {
            0.0
        } else {
            self.at(i0 as usize, i1 as usize, i2, i3)
        }
    }
}

fn sizes(shape: &Shape4) -> [usize; 4] {
    [shape.ne0, shape.ne1, shape.ne2, shape.ne3]
}

fn conv_len(input: usize, kernel: usize, stride: usize, pad: usize, dilation: usize) -> usize {
    (input + 2 * pad - dilation * (kernel - 1) - 1) / stride + 1
}

fn convolved(kernel: &Array, input: &Array, p: &ConvParams, depthwise: bool) -> Array {
    let width = conv_len(input.ne[0], kernel.ne[0], p.stride_w, p.pad_w, p.dilation_w);
    let height = conv_len(input.ne[1], kernel.ne[1], p.stride_h, p.pad_h, p.dilation_h);
    let channels = if depthwise { input.ne[2] } else { kernel.ne[3] };
    Array::new([width, height, channels, input.ne[3]], |x, y, channel, n| {
        let mut sum = 0.0;
        let planes = if depthwise { 1 } else { kernel.ne[2] };
        for plane in 0..planes {
            for ky in 0..kernel.ne[1] {
                for kx in 0..kernel.ne[0] {
                    let column = (x * p.stride_w + kx * p.dilation_w) as i64 - p.pad_w as i64;
                    let row = (y * p.stride_h + ky * p.dilation_h) as i64 - p.pad_h as i64;
                    let source = if depthwise { channel } else { plane };
                    let weight = if depthwise {
                        kernel.at(kx, ky, 0, channel)
                    } else {
                        kernel.at(kx, ky, plane, channel)
                    };
                    sum += weight * input.padded(column, row, source, n);
                }
            }
        }
        sum
    })
}

fn softmax_of(logits: &[f32]) -> Vec<f32> {
    let top = logits.iter().cloned().fold(f32::NEG_INFINITY, f32::max);
    let exponentials: Vec<f32> = logits.iter().map(|value| (value - top).exp()).collect();
    let sum: f32 = exponentials.iter().sum();
    exponentials.iter().map(|value| value / sum).collect()
}

/// What has been uploaded to a tensor.
fn uploaded(effects: &[GraphEffect], tensor: usize) -> Vec<f32> {
    let mut found: Option<Vec<f32>> = None;
    for effect in effects {
        match effect {
            GraphEffect::UploadFloats { tensor: id, values, .. } if *id == tensor => {
                found = Some(floats(values));
            }
            GraphEffect::UploadIntegers { tensor: id, integers, .. } if *id == tensor => {
                found = Some(integers.iter().map(|value| *value as f32).collect());
            }
            GraphEffect::UploadBytes { tensor: id, bytes, ggml_type: 0, .. } if *id == tensor => {
                found = Some(
                    bytes
                        .chunks(4)
                        .map(|part| f32::from_le_bytes(part.try_into().unwrap()))
                        .collect(),
                );
            }
            _ => {}
        }
    }
    match found {
        Some(values) => values,
        None => panic!("tensor {tensor} was not uploaded"),
    }
}

/// Runs the recorded operations one after the other.
fn run_graph(graph: &GgmlCpuGraphBuilder) -> Vec<Array> {
    let mut arrays: Vec<Array> = Vec::new();
    let effects = graph.effects();
    for (id, node) in graph.nodes().iter().enumerate() {
        let array = match node {
            GraphNode::Leaf { shape, .. } => Array {
                ne: sizes(shape),
                data: uploaded(effects, id),
            },
            GraphNode::View2d { src, ne0, ne1, nb1, offset } => {
                let source = &arrays[*src];
                Array::new([*ne0, *ne1, 1, 1], |i0, i1, _, _| {
                    source.data[(offset + i1 * nb1) / 4 + i0]
                })
            }
            GraphNode::View4d { src, shape, nb1, nb2, nb3, offset } => {
                let source = &arrays[*src];
                Array::new(sizes(shape), |i0, i1, i2, i3| {
                    source.data[(offset + i1 * nb1 + i2 * nb2 + i3 * nb3) / 4 + i0]
                })
            }
            GraphNode::Cont { src } => arrays[*src].clone(),
            GraphNode::Reshape { src, shape } => Array {
                ne: sizes(shape),
                data: arrays[*src].data.clone(),
            },
            GraphNode::Concat { first, second, dim } => {
                let (left, right) = (&arrays[*first], &arrays[*second]);
                let mut ne = left.ne;
                ne[*dim] += right.ne[*dim];
                Array::new(ne, |i0, i1, i2, i3| {
                    let mut at = [i0, i1, i2, i3];
                    if at[*dim] < left.ne[*dim] {
                        left.at(i0, i1, i2, i3)
                    } else {
                        at[*dim] -= left.ne[*dim];
                        right.at(at[0], at[1], at[2], at[3])
                    }
                })
            }
            GraphNode::Transpose { src } => {
                let source = &arrays[*src];
                let ne = [source.ne[1], source.ne[0], source.ne[2], source.ne[3]];
                Array::new(ne, |i0, i1, i2, i3| source.at(i1, i0, i2, i3))
            }
            GraphNode::PlanesToRows { src } => {
                let source = &arrays[*src];
                let ne = [source.ne[0], source.ne[2], source.ne[1], source.ne[3]];
                Array::new(ne, |i0, i1, i2, i3| source.at(i0, i2, i1, i3))
            }
            GraphNode::MulMat { weight, input } => {
                let (matrix, x) = (&arrays[*weight], &arrays[*input]);
                assert_eq!(matrix.ne[0], x.ne[0]);
                let ne = [matrix.ne[1], x.ne[1], x.ne[2], x.ne[3]];
                Array::new(ne, |i0, i1, i2, i3| {
                    let plane = i2 / (x.ne[2] / matrix.ne[2]);
                    let volume = i3 / (x.ne[3] / matrix.ne[3]);
                    (0..x.ne[0])
                        .map(|k| matrix.at(k, i0, plane, volume) * x.at(k, i1, i2, i3))
                        .sum()
                })
            }
            GraphNode::Add { left, right } => arrays[*left].zip(&arrays[*right], |a, b| a + b),
            GraphNode::Sub { left, right } => arrays[*left].zip(&arrays[*right], |a, b| a - b),
            GraphNode::Mul { left, right } => arrays[*left].zip(&arrays[*right], |a, b| a * b),
            GraphNode::Div { left, right } => arrays[*left].zip(&arrays[*right], |a, b| a / b),
            GraphNode::Scale { src, factor } => arrays[*src].map(|a| a * float(*factor)),
            GraphNode::ScaleByExp { src, exponent } => {
                arrays[*src].map(|a| a * float(*exponent).exp())
            }
            GraphNode::Sqr { src } => arrays[*src].map(|a| a * a),
            GraphNode::Sqrt { src } => arrays[*src].map(|a| a.sqrt()),
            GraphNode::MeanRows { src } => {
                let source = &arrays[*src];
                let ne = [1, source.ne[1], source.ne[2], source.ne[3]];
                Array::new(ne, |_, i1, i2, i3| {
                    let sum: f32 = (0..source.ne[0]).map(|i0| source.at(i0, i1, i2, i3)).sum();
                    sum / source.ne[0] as f32
                })
            }
            GraphNode::Softplus { src } => arrays[*src].map(softplus),
            GraphNode::Sigmoid { src } => arrays[*src].map(|a| 1.0 / (1.0 + (-a).exp())),
            GraphNode::Tanh { src } => arrays[*src].map(|a| a.tanh()),
            GraphNode::Relu { src } => arrays[*src].map(|a| a.max(0.0)),
            GraphNode::SoftMaxExt { src, mask, scale, .. } => {
                let source = &arrays[*src];
                Array::new(source.ne, |i0, i1, i2, i3| {
                    let logits: Vec<f32> = (0..source.ne[0])
                        .map(|k| {
                            let value = source.at(k, i1, i2, i3) * float(*scale);
                            match mask {
                                Some(m) => value + arrays[*m].repeated(k, i1, i2, i3),
                                None => value,
                            }
                        })
                        .collect();
                    softmax_of(&logits)[i0]
                })
            }
            GraphNode::Conv2d { kernel, input, params } => {
                convolved(&arrays[*kernel], &arrays[*input], params, false)
            }
            GraphNode::DepthwiseConv2d { kernel, input, params } => {
                convolved(&arrays[*kernel], &arrays[*input], params, true)
            }
            GraphNode::GetRows { table, rows } => {
                let (source, wanted) = (&arrays[*table], &arrays[*rows]);
                Array::new([source.ne[0], wanted.ne[0], 1, 1], |i0, i1, _, _| {
                    source.at(i0, wanted.data[i1] as usize, 0, 0)
                })
            }
            GraphNode::ArgMaxRows { src } => {
                let source = &arrays[*src];
                Array::new([source.ne[1], 1, 1, 1], |row, _, _, _| {
                    let mut best = 0;
                    for i in 1..source.ne[0] {
                        if source.at(i, row, 0, 0) > source.at(best, row, 0, 0) {
                            best = i;
                        }
                    }
                    best as f32
                })
            }
            GraphNode::Cpy { src, dst } => {
                let data = arrays[*src].data.clone();
                arrays[*dst].data = data.clone();
                Array { ne: arrays[*dst].ne, data }
            }
        };
        arrays.push(array);
    }
    arrays
}

/// The elements of tensors after a run.
fn computed(graph: &GgmlCpuGraphBuilder, outputs: &[(GgmlCpuTensor, usize)]) -> Vec<Vec<u32>> {
    let arrays = run_graph(graph);
    outputs
        .iter()
        .map(|(tensor, len)| {
            let values = &arrays[tensor.id].data;
            assert_eq!(values.len(), *len);
            bits(values)
        })
        .collect()
}

#[test]
fn ggml_swoosh_helpers_match_rust_reference() {
    let mut graph = GgmlCpuGraphBuilder::new();
    let input = graph.new_tensor_2d_f32(3, 2, "swoosh_input");
    let r_offset = graph.new_tensor_1d_f32(1, "swoosh_r_offset");
    let r_shift = graph.new_tensor_1d_f32(1, "swoosh_r_shift");
    let l_offset = graph.new_tensor_1d_f32(1, "swoosh_l_offset");
    let l_shift = graph.new_tensor_1d_f32(1, "swoosh_l_shift");
    for tensor in [input, r_offset, r_shift, l_offset, l_shift] {
        graph.set_input(tensor);
    }

    let swoosh_r_output = apply_swoosh_r_graph(&mut graph, input, r_offset, r_shift);
    let swoosh_l_output = apply_swoosh_l_graph(&mut graph, input, l_offset, l_shift);
    graph.set_output(swoosh_r_output);
    graph.set_output(swoosh_l_output);

    let values = [-2.0_f32, -0.5, 0.0, 1.0, 2.0, 4.0];
    graph.set_f32_slice(input, &bits(&values), "swoosh_input");
    graph.set_f32_slice(r_offset, &[SWOOSH_R_OFFSET], "swoosh_r_offset");
    graph.set_f32_slice(r_shift, &[SWOOSH_R_SHIFT], "swoosh_r_shift");
    graph.set_f32_slice(l_offset, &[SWOOSH_L_OFFSET], "swoosh_l_offset");
    graph.set_f32_slice(l_shift, &[SWOOSH_L_SHIFT], "swoosh_l_shift");

    let outputs = computed(
        &graph,
        &[
            (swoosh_r_output, values.len()),
            (swoosh_l_output, values.len()),
        ],
    );

    let right = values.map(|value| float(swoosh_r(&Floats, value.to_bits())));
    let left = values.map(|value| float(swoosh_l(&Floats, value.to_bits())));
    assert_max_abs_diff("swoosh r graph", &outputs[0], &right, 1.0e-5);
    assert_max_abs_diff("swoosh l graph", &outputs[1], &left, 1.0e-5);
}

#[test]
fn ggml_bias_norm_helper_matches_rust_reference() {
    let mut graph = GgmlCpuGraphBuilder::new();
    let input = graph.new_tensor_2d_f32(3, 2, "bias_norm_input");
    let bias_tensor = graph.new_tensor_1d_f32(3, "bias_norm_bias");
    graph.set_input(input);
    graph.set_input(bias_tensor);

    let log_scale = 0.2_f32;
    let output = apply_bias_norm_graph(&mut graph, input, bias_tensor, log_scale.to_bits())
        .expect("bias norm graph");
    graph.set_output(output);

    let values = [2.0_f32, 4.0, 6.0, 3.0, 3.0, 3.0];
    let bias = [1.0_f32, 2.0, 3.0];
    graph.set_f32_slice(input, &bits(&values), "bias_norm_input");
    graph.set_f32_slice(bias_tensor, &bits(&bias), "bias_norm_bias");
    let actual = computed(&graph, &[(output, values.len())]);

    let expected = bias_norm_last_dim(&Floats, &bits(&values), 3, &bits(&bias), log_scale.to_bits())
        .expect("reference bias norm");
    assert_max_abs_diff("bias norm graph", &actual[0], &floats(&expected), 1.0e-5);
}

#[test]
fn ggml_feed_forward_helper_matches_rust_reference() {
    const DIM: usize = 3;
    const HIDDEN: usize = 4;
    const FRAMES: usize = 2;

    let mut graph = GgmlCpuGraphBuilder::new();
    let input = graph.new_tensor_2d_f32(DIM, FRAMES, "ff_input");
    let in_weight = graph.new_tensor_2d_f32(DIM, HIDDEN, "ff_in_weight");
    let in_bias = graph.new_tensor_1d_f32(HIDDEN, "ff_in_bias");
    let out_weight = graph.new_tensor_2d_f32(HIDDEN, DIM, "ff_out_weight");
    let out_bias = graph.new_tensor_1d_f32(DIM, "ff_out_bias");
    let swoosh_l_offset = graph.new_tensor_1d_f32(1, "ff_swoosh_l_offset");
    let swoosh_l_shift = graph.new_tensor_1d_f32(1, "ff_swoosh_l_shift");
    for tensor in [
        input,
        in_weight,
        in_bias,
        out_weight,
        out_bias,
        swoosh_l_offset,
        swoosh_l_shift,
    ] {
        graph.set_input(tensor);
    }

    let output = apply_feed_forward_graph(
        &mut graph,
        input,
        XasrFeedForwardGraphTensors {
            in_proj_weight: in_weight,
            in_proj_bias: in_bias,
            out_proj_weight: out_weight,
            out_proj_bias: out_bias,
            swoosh_l_offset,
            swoosh_l_shift,
        },
    );
    graph.set_output(output);

    let input_values = [0.2_f32, -0.5, 1.0, 1.5, -1.0, 0.25];
    let in_weight_values = [
        0.1_f32, -0.2, 0.3, //
        0.4, 0.0, -0.1, //
        -0.3, 0.2, 0.5, //
        0.6, -0.4, 0.1,
    ];
    let in_bias_values = [0.01_f32, -0.02, 0.03, -0.04];
    let out_weight_values = [
        0.2_f32, -0.1, 0.3, -0.2, //
        -0.4, 0.5, 0.1, 0.2, //
        0.3, 0.2, -0.5, 0.4,
    ];
    let out_bias_values = [0.05_f32, -0.03, 0.02];
    graph.set_f32_slice(input, &bits(&input_values), "ff_input");
    graph.set_f32_slice(in_weight, &bits(&in_weight_values), "ff_in_weight");
    graph.set_f32_slice(in_bias, &bits(&in_bias_values), "ff_in_bias");
    graph.set_f32_slice(out_weight, &bits(&out_weight_values), "ff_out_weight");
    graph.set_f32_slice(out_bias, &bits(&out_bias_values), "ff_out_bias");
    graph.set_f32_slice(swoosh_l_offset, &[SWOOSH_L_OFFSET], "ff_swoosh_l_offset");
    graph.set_f32_slice(swoosh_l_shift, &[SWOOSH_L_SHIFT], "ff_swoosh_l_shift");
    let actual = computed(&graph, &[(output, DIM * FRAMES)]);

    let weights = XasrLinearPairWeights {
        in_proj: with_bias(
            linear("ff.in_proj.weight", DIM, HIDDEN, &in_weight_values),
            &in_bias_values,
        ),
        out_proj: with_bias(
            linear("ff.out_proj.weight", HIDDEN, DIM, &out_weight_values),
            &out_bias_values,
        ),
    };
    let expected = feed_forward_reference(&Floats, &weights, &bits(&input_values), FRAMES, DIM)
        .expect("reference ff");
    assert_max_abs_diff("feed-forward graph", &actual[0], &floats(&expected), 1.0e-5);
}

#[test]
fn ggml_bypass_helper_matches_rust_reference() {
    const DIM: usize = 3;
    const FRAMES: usize = 2;

    let mut graph = GgmlCpuGraphBuilder::new();
    let original = graph.new_tensor_2d_f32(DIM, FRAMES, "bypass_original");
    let current = graph.new_tensor_2d_f32(DIM, FRAMES, "bypass_current");
    let scale = graph.new_tensor_1d_f32(DIM, "bypass_scale");
    for tensor in [original, current, scale] {
        graph.set_input(tensor);
    }
    let output = apply_bypass_graph(&mut graph, original, current, scale);
    graph.set_output(output);

    let original_values = [1.0_f32, 2.0, 3.0, 4.0, 5.0, 6.0];
    let current_values = [2.0_f32, -2.0, 7.0, 0.0, 8.0, 9.0];
    let scale_values = [0.0_f32, 0.25, 1.0];
    graph.set_f32_slice(original, &bits(&original_values), "bypass_original");
    graph.set_f32_slice(current, &bits(&current_values), "bypass_current");
    graph.set_f32_slice(scale, &bits(&scale_values), "bypass_scale");
    let actual = computed(&graph, &[(output, DIM * FRAMES)]);
    let expected = bypass_reference(
        &Floats,
        &bits(&original_values),
        &bits(&current_values),
        &bits(&scale_values),
        FRAMES,
        DIM,
    )
    .expect("reference bypass");
    assert_max_abs_diff("bypass graph", &actual[0], &floats(&expected), 1.0e-6);
}

#[test]
fn ggml_conv_in_proj_glu_helper_matches_manual_reference() {
    const DIM: usize = 3;
    const FRAMES: usize = 2;
    const OUT: usize = DIM * 2;

    let mut graph = GgmlCpuGraphBuilder::new();
    let input = graph.new_tensor_2d_f32(DIM, FRAMES, "conv_glu_input");
    let weight = graph.new_tensor_2d_f32(DIM, OUT, "conv_glu_weight");
    let bias = graph.new_tensor_1d_f32(OUT, "conv_glu_bias");
    for tensor in [input, weight, bias] {
        graph.set_input(tensor);
    }
    let output = apply_conv_in_proj_glu_graph(&mut graph, input, weight, bias, DIM, FRAMES)
        .expect("conv GLU graph should build");
    graph.set_output(output);

    let input_values = [0.2_f32, -0.5, 1.0, 1.5, -1.0, 0.25];
    let weight_values = [
        0.1_f32, -0.2, 0.3, //
        0.4, 0.0, -0.1, //
        -0.3, 0.2, 0.5, //
        0.6, -0.4, 0.1, //
        0.2, 0.7, -0.3, //
        -0.5, 0.1, 0.4,
    ];
    let bias_values = [0.01_f32, -0.02, 0.03, -0.04, 0.05, -0.06];
    graph.set_f32_slice(input, &bits(&input_values), "conv_glu_input");
    graph.set_f32_slice(weight, &bits(&weight_values), "conv_glu_weight");
    graph.set_f32_slice(bias, &bits(&bias_values), "conv_glu_bias");
    let actual = computed(&graph, &[(output, DIM * FRAMES)]);

    let matrix = linear("conv.in_proj.weight", DIM, OUT, &weight_values);
    let mut expected = Vec::with_capacity(DIM * FRAMES);
    for frame in input_values.chunks_exact(DIM) {
        let projected = Floats
            .apply_linear(&matrix, &bits(frame), Some(&bits(&bias_values)))
            .expect("linear");
        let projected = floats(&projected);
        for c in 0..DIM {
            expected.push(projected[c] * sigmoid_reference(projected[DIM + c]));
        }
    }
    assert_max_abs_diff("conv in_proj GLU graph", &actual[0], &expected, 1.0e-6);
}

#[test]
fn ggml_depthwise_conv1d_channel_major_helper_matches_manual_reference() {
    const CHANNELS: usize = 2;
    const INPUT_LEN: usize = 4;
    const KERNEL: usize = 3;
    const VALID_OUT: usize = INPUT_LEN - KERNEL + 1;

    let mut graph = GgmlCpuGraphBuilder::new();
    let input = graph.new_tensor_2d_f32(INPUT_LEN, CHANNELS, "dw_input");
    let kernel = graph.new_tensor_3d_f32(KERNEL, 1, CHANNELS, "dw_kernel");
    let bias = graph.new_tensor_1d_f32(CHANNELS, "dw_bias");
    for tensor in [input, kernel, bias] {
        graph.set_input(tensor);
    }
    let valid = apply_depthwise_conv1d_channel_major_graph(
        &mut graph, input, kernel, bias, CHANNELS, INPUT_LEN, KERNEL, 0,
    )
    .expect("valid depthwise conv graph should build");
    let same = apply_depthwise_conv1d_channel_major_graph(
        &mut graph,
        input,
        kernel,
        bias,
        CHANNELS,
        INPUT_LEN,
        KERNEL,
        KERNEL / 2,
    )
    .expect("same depthwise conv graph should build");
    graph.set_output(valid);
    graph.set_output(same);

    let input_values = [
        1.0_f32, 2.0, 3.0, 4.0, //
        -1.0, 0.5, 2.0, -0.5,
    ];
    let kernel_values = [
        0.25_f32, -0.5, 0.75, //
        -0.3, 0.1, 0.2,
    ];
    let bias_values = [0.05_f32, -0.1];
    graph.set_f32_slice(input, &bits(&input_values), "dw_input");
    graph.set_f32_slice(kernel, &bits(&kernel_values), "dw_kernel");
    graph.set_f32_slice(bias, &bits(&bias_values), "dw_bias");
    let outputs = computed(
        &graph,
        &[(valid, CHANNELS * VALID_OUT), (same, CHANNELS * INPUT_LEN)],
    );

    let expected_valid = depthwise_conv1d_channel_major_reference(
        &input_values,
        &kernel_values,
        &bias_values,
        CHANNELS,
        INPUT_LEN,
        KERNEL,
        0,
    );
    let expected_same = depthwise_conv1d_channel_major_reference(
        &input_values,
        &kernel_values,
        &bias_values,
        CHANNELS,
        INPUT_LEN,
        KERNEL,
        KERNEL / 2,
    );
    assert_max_abs_diff("depthwise valid graph", &outputs[0], &expected_valid, 1.0e-6);
    assert_max_abs_diff("depthwise same graph", &outputs[1], &expected_same, 1.0e-6);
}

#[test]
fn ggml_depthwise_mix_channel_major_helper_matches_manual_reference() {
    const CHANNELS: usize = 2;
    const FRAMES: usize = 4;
    const CACHED_LEN: usize = 5;
    const CAUSAL_KERNEL: usize = 2;
    const CHUNK_KERNEL: usize = 3;

    let mut graph = GgmlCpuGraphBuilder::new();
    let cached_input = graph.new_tensor_2d_f32(CACHED_LEN, CHANNELS, "mix_cached_input");
    let chunk_input = graph.new_tensor_2d_f32(FRAMES, CHANNELS, "mix_chunk_input");
    let causal_kernel = graph.new_tensor_3d_f32(CAUSAL_KERNEL, 1, CHANNELS, "mix_causal_kernel");
    let causal_bias = graph.new_tensor_1d_f32(CHANNELS, "mix_causal_bias");
    let chunk_kernel = graph.new_tensor_3d_f32(CHUNK_KERNEL, 1, CHANNELS, "mix_chunk_kernel");
    let chunk_bias = graph.new_tensor_1d_f32(CHANNELS, "mix_chunk_bias");
    let chunk_scale = graph.new_tensor_2d_f32(FRAMES, CHANNELS, "mix_chunk_scale");
    for tensor in [
        cached_input,
        chunk_input,
        causal_kernel,
        causal_bias,
        chunk_kernel,
        chunk_bias,
        chunk_scale,
    ] {
        graph.set_input(tensor);
    }
    let shape = XasrDepthwiseMixShape {
        channels: CHANNELS,
        frames: FRAMES,
        cached_len: CACHED_LEN,
        causal_kernel_len: CAUSAL_KERNEL,
        chunk_kernel_len: CHUNK_KERNEL,
    };
    let output = apply_depthwise_mix_channel_major_graph(
        &mut graph,
        XasrDepthwiseMixGraphTensors {
            cached_input,
            chunk_input,
            causal_kernel,
            causal_bias,
            chunk_kernel,
            chunk_bias,
            chunk_scale,
        },
        shape,
    )
    .expect("depthwise mix graph should build");
    graph.set_output(output);

    let cached_values = [
        0.25_f32, 1.0, 2.0, 3.0, 4.0, //
        -0.75, -1.0, 0.5, 2.0, -0.5,
    ];
    let chunk_values = [
        1.0_f32, 2.0, 3.0, 4.0, //
        -1.0, 0.5, 2.0, -0.5,
    ];
    let causal_kernel_values = [
        0.5_f32, -0.25, //
        -0.2, 0.4,
    ];
    let causal_bias_values = [0.05_f32, -0.1];
    let chunk_kernel_values = [
        0.25_f32, -0.5, 0.75, //
        -0.3, 0.1, 0.2,
    ];
    let chunk_bias_values = [0.01_f32, -0.02];
    let chunk_scale_values = [
        1.0_f32, 0.5, 1.5, 0.25, //
        0.75, 1.25, 0.8, 1.1,
    ];
    graph.set_f32_slice(cached_input, &bits(&cached_values), "mix_cached_input");
    graph.set_f32_slice(chunk_input, &bits(&chunk_values), "mix_chunk_input");
    graph.set_f32_slice(causal_kernel, &bits(&causal_kernel_values), "mix_causal_kernel");
    graph.set_f32_slice(causal_bias, &bits(&causal_bias_values), "mix_causal_bias");
    graph.set_f32_slice(chunk_kernel, &bits(&chunk_kernel_values), "mix_chunk_kernel");
    graph.set_f32_slice(chunk_bias, &bits(&chunk_bias_values), "mix_chunk_bias");
    graph.set_f32_slice(chunk_scale, &bits(&chunk_scale_values), "mix_chunk_scale");

    let actual = computed(&graph, &[(output, CHANNELS * FRAMES)]);
    let causal = depthwise_conv1d_channel_major_reference(
        &cached_values,
        &causal_kernel_values,
        &causal_bias_values,
        CHANNELS,
        CACHED_LEN,
        CAUSAL_KERNEL,
        0,
    );
    let chunk = depthwise_conv1d_channel_major_reference(
        &chunk_values,
        &chunk_kernel_values,
        &chunk_bias_values,
        CHANNELS,
        FRAMES,
        CHUNK_KERNEL,
        CHUNK_KERNEL / 2,
    );
    assert_eq!(causal.len(), CHANNELS * FRAMES);
    assert_eq!(chunk.len(), CHANNELS * FRAMES);
    let expected: Vec<f32> = (0..CHANNELS * FRAMES)
        .map(|i| causal[i] + chunk[i] * chunk_scale_values[i])
        .collect();
    assert_max_abs_diff("depthwise mix graph", &actual[0], &expected, 1.0e-6);
}

#[test]
fn ggml_convolution_module_helper_matches_rust_reference() {
    const DIM: usize = 2;
    const FRAMES: usize = 3;
    const CACHE_LEN: usize = 1;
    const CAUSAL_KERNEL: usize = 2;
    const CHUNK_KERNEL: usize = 3;
    const PROJECTED: usize = 2 * DIM;

    let input_values = [0.2_f32, -0.5, 1.0, 1.5, -1.0, 0.25];
    let cache_values = [0.125_f32, -0.25];
    let in_weight_values = [
        0.1_f32, -0.2, //
        0.3, 0.4, //
        -0.5, 0.2, //
        0.6, -0.1,
    ];
    let in_bias_values = [0.01_f32, -0.02, 0.03, -0.04];
    let causal_kernel_values = [
        0.5_f32, -0.25, //
        -0.2, 0.4,
    ];
    let causal_bias_values = [0.05_f32, -0.1];
    let chunk_kernel_values = [
        0.25_f32, -0.5, 0.75, //
        -0.3, 0.1, 0.2,
    ];
    let chunk_bias_values = [0.01_f32, -0.02];
    let chunk_scale_source_values = [
        0.02_f32, -0.03, 0.01, //
        -0.04, 0.05, 0.03, //
        0.01, 0.02, -0.02, //
        0.03, -0.01, 0.04,
    ];
    let out_weight_values = [
        0.2_f32, -0.1, //
        -0.4, 0.5,
    ];
    let out_bias_values = [0.05_f32, -0.03];
    let weights = XasrConvolutionModuleWeights {
        in_proj: with_bias(
            linear("conv.in_proj.weight", DIM, PROJECTED, &in_weight_values),
            &in_bias_values,
        ),
        depthwise_causal_conv: XasrConv1dWeights {
            weight: named(
                "conv.depthwise.causal.weight",
                &[CAUSAL_KERNEL, 1, DIM],
                &causal_kernel_values,
            ),
            bias: bits(&causal_bias_values),
        },
        depthwise_chunkwise_conv: XasrConv1dWeights {
            weight: named(
                "conv.depthwise.chunk.weight",
                &[CHUNK_KERNEL, 1, DIM],
                &chunk_kernel_values,
            ),
            bias: bits(&chunk_bias_values),
        },
        chunkwise_conv_scale: named(
            "conv.depthwise.chunk_scale",
            &[2, DIM, CHUNK_KERNEL],
            &chunk_scale_source_values,
        ),
        out_proj: with_bias(
            linear("conv.out_proj.weight", DIM, DIM, &out_weight_values),
            &out_bias_values,
        ),
    };
    let mut chunk_scale_values = vec![0_u32; DIM * FRAMES];
    for c in 0..DIM {
        for t in 0..FRAMES {
            chunk_scale_values[c * FRAMES + t] =
                match chunkwise_conv_scale_for_graph(&Floats, &weights, c, t, FRAMES) {
                    Ok(value) => value,
                    Err(_) => panic!("chunkwise scale"),
                };
        }
    }

    let mut graph = GgmlCpuGraphBuilder::new();
    let input = graph.new_tensor_2d_f32(DIM, FRAMES, "conv_input");
    let cache = graph.new_tensor_2d_f32(CACHE_LEN, DIM, "conv_cache");
    let in_weight = graph.new_tensor_2d_f32(DIM, PROJECTED, "conv_in_weight");
    let in_bias = graph.new_tensor_1d_f32(PROJECTED, "conv_in_bias");
    let causal_kernel = graph.new_tensor_3d_f32(CAUSAL_KERNEL, 1, DIM, "conv_causal_kernel");
    let causal_bias = graph.new_tensor_1d_f32(DIM, "conv_causal_bias");
    let chunk_kernel = graph.new_tensor_3d_f32(CHUNK_KERNEL, 1, DIM, "conv_chunk_kernel");
    let chunk_bias = graph.new_tensor_1d_f32(DIM, "conv_chunk_bias");
    let chunk_scale = graph.new_tensor_2d_f32(FRAMES, DIM, "conv_chunk_scale");
    let out_weight = graph.new_tensor_2d_f32(DIM, DIM, "conv_out_weight");
    let out_bias = graph.new_tensor_1d_f32(DIM, "conv_out_bias");
    let swoosh_r_offset = graph.new_tensor_1d_f32(1, "conv_swoosh_r_offset");
    let swoosh_r_shift = graph.new_tensor_1d_f32(1, "conv_swoosh_r_shift");
    for tensor in [
        input,
        cache,
        in_weight,
        in_bias,
        causal_kernel,
        causal_bias,
        chunk_kernel,
        chunk_bias,
        chunk_scale,
        out_weight,
        out_bias,
        swoosh_r_offset,
        swoosh_r_shift,
    ] {
        graph.set_input(tensor);
    }
    let output = apply_convolution_module_graph(
        &mut graph,
        input,
        XasrConvolutionModuleGraphTensors {
            cache,
            in_proj_weight: in_weight,
            in_proj_bias: in_bias,
            causal_kernel,
            causal_bias,
            chunk_kernel,
            chunk_bias,
            chunk_scale,
            out_proj_weight: out_weight,
            out_proj_bias: out_bias,
            swoosh_r_offset,
            swoosh_r_shift,
        },
        XasrConvolutionModuleGraphShape {
            dim: DIM,
            frames: FRAMES,
            cache_len: CACHE_LEN,
            causal_kernel_len: CAUSAL_KERNEL,
            chunk_kernel_len: CHUNK_KERNEL,
        },
    )
    .expect("convolution module graph should build");
    graph.set_output(output.rows);
    graph.set_output(output.new_cache);

    graph.set_f32_slice(input, &bits(&input_values), "conv_input");
    graph.set_f32_slice(cache, &bits(&cache_values), "conv_cache");
    graph.set_f32_slice(in_weight, &bits(&in_weight_values), "conv_in_weight");
    graph.set_f32_slice(in_bias, &bits(&in_bias_values), "conv_in_bias");
    graph.set_f32_slice(causal_kernel, &bits(&causal_kernel_values), "conv_causal_kernel");
    graph.set_f32_slice(causal_bias, &bits(&causal_bias_values), "conv_causal_bias");
    graph.set_f32_slice(chunk_kernel, &bits(&chunk_kernel_values), "conv_chunk_kernel");
    graph.set_f32_slice(chunk_bias, &bits(&chunk_bias_values), "conv_chunk_bias");
    graph.set_f32_slice(chunk_scale, &chunk_scale_values, "conv_chunk_scale");
    graph.set_f32_slice(out_weight, &bits(&out_weight_values), "conv_out_weight");
    graph.set_f32_slice(out_bias, &bits(&out_bias_values), "conv_out_bias");
    graph.set_f32_slice(swoosh_r_offset, &[SWOOSH_R_OFFSET], "conv_swoosh_r_offset");
    graph.set_f32_slice(swoosh_r_shift, &[SWOOSH_R_SHIFT], "conv_swoosh_r_shift");

    let actual = computed(
        &graph,
        &[
            (output.rows, DIM * FRAMES),
            (output.new_cache, DIM * CACHE_LEN),
        ],
    );
    let expected = convolution_module_streaming_reference(
        &Floats,
        &weights,
        &bits(&input_values),
        FRAMES,
        DIM,
        Some(&bits(&cache_values)),
        None,
    )
    .expect("reference convolution module");
    assert_max_abs_diff(
        "convolution module rows",
        &actual[0],
        &floats(&expected.rows),
        1.0e-5,
    );
    assert_max_abs_diff(
        "convolution module new cache",
        &actual[1],
        &floats(&expected.new_cache),
        1.0e-5,
    );
}

#[test]
fn swoosh_variants_match_onnx_expansion_constants() {
    let x = 2.5_f32;
    let r = ((x - 1.0).exp() + 1.0).ln() - 0.08 * x - 0.313_261_7;
    let l = ((x - 4.0).exp() + 1.0).ln() - 0.08 * x - 0.035;
    assert!((float(swoosh_r(&Floats, x.to_bits())) - r).abs() < 1.0e-6);
    assert!((float(swoosh_l(&Floats, x.to_bits())) - l).abs() < 1.0e-6);
    let mut rows = bits(&[x]);
    apply_swoosh_r(&Floats, &mut rows);
    assert!((float(rows[0]) - r).abs() < 1.0e-6);
    let mut rows = bits(&[x]);
    apply_swoosh_l(&Floats, &mut rows);
    assert!((float(rows[0]) - l).abs() < 1.0e-6);
}

#[test]
fn bias_norm_reduces_last_dim_per_frame() {
    let values = bits(&[2.0, 4.0, 6.0, 3.0, 3.0, 3.0]);
    let bias = bits(&[1.0, 2.0, 3.0]);
    let values = bias_norm_last_dim(&Floats, &values, 3, &bias, 0.0_f32.to_bits()).unwrap();
    let values = floats(&values);

    let first_multiplier = ((1.0_f32 + 4.0 + 9.0) / 3.0).powf(-0.5);
    assert!((values[0] - 2.0 * first_multiplier).abs() < 1.0e-6);
    assert!((values[2] - 6.0 * first_multiplier).abs() < 1.0e-6);

    let second_multiplier = ((4.0_f32 + 1.0 + 0.0) / 3.0).powf(-0.5);
    assert!((values[3] - 3.0 * second_multiplier).abs() < 1.0e-6);
    assert!((values[5] - 3.0 * second_multiplier).abs() < 1.0e-6);
}

#[test]
fn conv2d_groups_match_manual_depthwise_reference() {
    let input = Tensor4 {
        data: bits(&[
            1.0, 2.0, 3.0, //
            4.0, 5.0, 6.0, //
            10.0, 20.0, 30.0, //
            40.0, 50.0, 60.0,
        ]),
        n: 1,
        c: 2,
        h: 2,
        w: 3,
    };
    let weights = XasrConv2dWeights {
        weight: named("dw", &[2, 1, 1, 2], &[1.0, 2.0, 10.0, 20.0]),
        bias: bits(&[0.5, 1.0]),
    };
    let sliding = Sliding {
        stride_h: 1,
        stride_w: 1,
        pad_top: 0,
        pad_left: 0,
        pad_bottom: 0,
        pad_right: 0,
        groups: 2,
    };
    let out = conv2d_nchw(&Floats, &input, &weights, &sliding).unwrap();
    assert_eq!(
        floats(&out.data),
        vec![5.5, 8.5, 14.5, 17.5, 501.0, 801.0, 1401.0, 1701.0]
    );
    assert_eq!((out.n, out.c, out.h, out.w), (1, 2, 2, 2));
}

#[test]
fn conv1d_depthwise_valid_and_same_match_manual_reference() {
    let weights = XasrConv1dWeights {
        weight: named("dw1d", &[3, 1, 2], &[1.0, 2.0, 3.0, 10.0, 20.0, 30.0]),
        bias: bits(&[0.5, 1.0]),
    };
    let input = bits(&[1.0, 2.0, 3.0, 4.0, 10.0, 20.0, 30.0, 40.0]);

    let valid = depthwise_conv1d_valid_channel_major(&Floats, &input, 2, 4, &weights).unwrap();
    assert_eq!(floats(&valid), vec![14.5, 20.5, 1401.0, 2001.0]);

    let same = depthwise_conv1d_same_channel_major(&Floats, &input, 2, 4, &weights).unwrap();
    assert_eq!(
        floats(&same),
        vec![8.5, 14.5, 20.5, 11.5, 801.0, 1401.0, 2001.0, 1101.0]
    );
}

#[test]
fn compact_relative_positional_encoding_keeps_bias_channel() {
    let encoding = compact_relative_positional_encoding(&Floats, 3, 2, 4);
    assert_eq!(encoding.len(), (2 + 2 * 3 - 1) * 4);
    for row in encoding.chunks_exact(4) {
        assert_eq!(float(row[3]), 1.0);
    }
}

#[test]
fn both_position_tables_are_the_same() {
    let host = compact_relative_positional_encoding(&Floats, 4, 3, 6);
    let graph = compact_relative_positional_encoding_for_graph(&Floats, 4, 3, 6).unwrap();
    assert_eq!(host, graph);
}

#[test]
fn streaming_key_padding_mask_keeps_recent_left_context_and_current_frames() {
    let mask = streaming_key_padding_mask(5, 3, 2).unwrap();
    assert_eq!(
        mask,
        vec![true, true, true, false, false, false, false, false]
    );
}

#[test]
fn padding_masks_refuse_too_much_context() {
    assert_eq!(
        streaming_key_padding_mask(5, 3, 6).unwrap_err(),
        "xasr attention valid left context 6 exceeds 5"
    );
    let rows = attention_mask_values_for_graph(2, 2, 1).unwrap();
    assert_eq!(
        floats(&rows),
        vec![-1000.0, 0.0, 0.0, 0.0, -1000.0, 0.0, 0.0, 0.0]
    );
    assert_eq!(
        attention_mask_values_for_graph(1, 2, 2).unwrap_err().message(),
        "xasr encoder graph shape error: xasr attention valid left context 2 exceeds 1"
    );
}

#[test]
fn downsampling_weighs_the_rows_of_each_group() {
    let rows = bits(&[1.0, 2.0, 3.0, 4.0, 5.0, 6.0]);
    let down = downsample_streaming_reference(&Floats, &rows, 3, 2, 3, &bits(&[0.0, 0.0])).unwrap();
    assert_eq!(down.frames, 2);
    assert_eq!(down.dim, 3);
    assert_eq!(
        floats(&down.padded_rows),
        vec![1.0, 2.0, 0.0, 3.0, 4.0, 0.0, 5.0, 6.0, 0.0, 0.0, 0.0, 0.0]
    );
    assert_eq!(down.padded_rows, down.reshaped_rows);
    assert_eq!(floats(&down.rows), vec![2.0, 3.0, 0.0, 2.5, 3.0, 0.0]);
}

#[test]
fn upsampling_repeats_rows() {
    let rows = bits(&[1.0, 2.0, 3.0, 4.0]);
    let up = upsample_streaming_reference(&rows, 2, 2, 2, 3).unwrap();
    assert_eq!(floats(&up), vec![1.0, 2.0, 1.0, 2.0, 3.0, 4.0]);
}

#[test]
fn resizing_drops_or_fills_columns() {
    let rows = bits(&[1.0, 2.0, 3.0, 4.0]);
    let narrow = resize_frame_rows_reference(&rows, 2, 2, 1).unwrap();
    assert_eq!(floats(&narrow), vec![1.0, 3.0]);
    let wide = resize_frame_rows_reference(&rows, 2, 2, 3).unwrap();
    assert_eq!(floats(&wide), vec![1.0, 2.0, 0.0, 3.0, 4.0, 0.0]);
}

#[test]
fn joining_slices_gives_the_rows_back() {
    let rows = bits(&[1.0, 2.0, 3.0, 4.0, 5.0, 6.0, 7.0, 8.0]);
    let left = slice_frame_rows_reference(&rows, 2, 4, 0, 1).unwrap();
    let right = slice_frame_rows_reference(&rows, 2, 4, 1, 4).unwrap();
    assert_eq!(floats(&left), vec![1.0, 5.0]);
    assert_eq!(floats(&right), vec![2.0, 3.0, 4.0, 6.0, 7.0, 8.0]);
    let whole = concat_frame_rows_reference(2, &[(&left, 1), (&right, 3)]).unwrap();
    assert_eq!(whole, rows);
    assert!(slice_frame_rows_reference(&rows, 2, 4, 3, 5).is_err());
    assert!(concat_frame_rows_reference(2, &[(&left, 2)]).is_err());
}

fn tiny_metadata() -> XasrZipformerExecutionMetadata {
    XasrZipformerExecutionMetadata {
        num_stacks: 1,
        num_encoder_layers: vec![2],
        encoder_dims: vec![192],
        query_head_dims: vec![32],
        value_head_dims: vec![12],
        num_heads: vec![4],
        cnn_module_kernels: vec![31],
        left_context_len: vec![256],
        downsampling_factors: vec![1],
        feature_dim: 80,
        decode_chunk_len: 48,
        joiner_dim: 512,
        decoder_context_size: 2,
        vocab_size: 5000,
        blank_id: 0,
    }
}

fn zero_conv2d(name: &str, dims: &[usize]) -> XasrConv2dWeights {
    let out = dims[3];
    let len = dims.iter().product();
    XasrConv2dWeights {
        weight: named(&format!("{name}.weight"), dims, &vec![0.0; len]),
        bias: bits(&vec![0.0; out]),
    }
}

fn dummy_embed() -> XasrEncoderEmbedWeights {
    XasrEncoderEmbedWeights {
        conv0: zero_conv2d("conv0", &[3, 3, 1, 8]),
        conv4: zero_conv2d("conv4", &[3, 3, 8, 32]),
        conv7: zero_conv2d("conv7", &[3, 3, 32, 128]),
        convnext_depthwise: zero_conv2d("convnext_dw", &[7, 7, 1, 128]),
        convnext_pointwise1: zero_conv2d("convnext_pw1", &[1, 1, 128, 384]),
        convnext_pointwise2: zero_conv2d("convnext_pw2", &[1, 1, 384, 128]),
        out: with_bias(
            linear("out.weight", 2432, 192, &vec![0.0; 2432 * 192]),
            &vec![0.0; 192],
        ),
        out_norm_bias: bits(&vec![0.0; 192]),
        out_norm_log_scale: bits(&[0.0]),
    }
}

#[test]
fn new_reference_rejects_missing_stack0() {
    let weights = XasrEncoderWeights {
        embed: dummy_embed(),
        stacks: Vec::new(),
        downsample_output_bias: bits(&[0.0, 0.0]),
    };

    let error = match XasrZipformerEncoderGraph::new_reference(tiny_metadata(), weights) {
        Ok(_) => panic!("missing stack0 must fail"),
        Err(error) => error,
    };

    assert!(error.message().contains("weights include 0 stack"));
}

#[test]
fn feature_input_rejects_len_mismatch() {
    let error = match XasrEncoderFeatureInput::new(2, 80, bits(&vec![0.0; 159])) {
        Ok(_) => panic!("shape mismatch must fail"),
        Err(error) => error,
    };

    assert!(error.message().contains("expected 2x80=160"));
}

/// A pack whose tensors hold reproducible noise.
struct Pack {
    metadata: XasrZipformerExecutionMetadata,
}

fn noise(name: &str, index: usize, scale: f32) -> f32 {
    let mut state: u32 = 2_166_136_261;
    for byte in name.bytes() {
        state = (state ^ byte as u32).wrapping_mul(16_777_619);
    }
    state = state.wrapping_add((index as u32).wrapping_mul(2_654_435_761));
    state ^= state >> 16;
    state = state.wrapping_mul(0x7feb_352d);
    state ^= state >> 15;
    state = state.wrapping_mul(0x846c_a68b);
    state ^= state >> 16;
    (state as f32 / 4_294_967_296.0 * 2.0 - 1.0) * scale
}

fn noisy(name: &str, len: usize, scale: f32) -> Vec<u32> {
    (0..len)
        .map(|index| noise(name, index, scale).to_bits())
        .collect()
}

const POSITION_DIM: usize = 6;
const POSITION_HEAD_DIM: usize = 3;
const FEED_FORWARD_DIM: usize = 5;
const NONLIN_DIM: usize = 4;

impl Pack {
    fn stack(&self, name: &str) -> usize {
        let rest = &name["E".len()..];
        rest[..rest.find('.').unwrap()].parse().unwrap()
    }

    fn dim(&self, name: &str) -> usize {
        self.metadata.encoder_dims[self.stack(name)]
    }

    fn noisy_linear(&self, name: &str, input_dim: usize, output_dim: usize) -> StoredLinear {
        StoredLinear {
            name: name.to_string(),
            input_dim,
            output_dim,
            values: noisy(name, input_dim * output_dim, 1.7 / (input_dim as f32).sqrt()),
            native: None,
        }
    }

    fn noisy_tensor(&self, name: &str, dims: &[usize]) -> NamedTensor {
        let len: usize = dims.iter().product();
        let fan: usize = if dims.len() > 1 { len / dims[dims.len() - 1] } else { 4 };
        NamedTensor {
            name: name.to_string(),
            dims: dims.to_vec(),
            values: noisy(name, len, 1.7 / (fan as f32).sqrt()),
        }
    }

    fn list_len(&self, name: &str) -> usize {
        if name == "encoder.DS_output.bias" {
            return 2;
        }
        if name.ends_with(".DS.bias") {
            return self.metadata.downsampling_factors[self.stack(name)];
        }
        if name.ends_with("log_scale") {
            return 1;
        }
        match name {
            "EE.conv.0.bias" => 8,
            "EE.conv.4.bias" => 32,
            "EE.conv.7.bias" => 128,
            "EE.CX.DW.bias" => 128,
            "EE.CX.PW1.bias" => 384,
            "EE.CX.PW2.bias" => 128,
            "EE.out.bias" | "EE.out_norm.bias" => {
                self.metadata.encoder_dims[0]
            }
            _ => {
                if name.contains(".CM") && name.ends_with(".IP.bias") {
                    2 * self.dim(name)
                } else {
                    self.dim(name)
                }
            }
        }
    }
}

impl WeightSource for Pack {
    fn load_named(&self, name: &String) -> Result<NamedTensor, XasrWeightsError> {
        let dims: Vec<usize> = match name.as_str() {
            "EE.conv.0.weight" => vec![3, 3, 1, 8],
            "EE.conv.4.weight" => vec![3, 3, 8, 32],
            "EE.conv.7.weight" => vec![3, 3, 32, 128],
            "EE.CX.DW.weight" => vec![7, 7, 1, 128],
            "EE.CX.PW1.weight" => vec![1, 1, 128, 384],
            "EE.CX.PW2.weight" => vec![1, 1, 384, 128],
            _ => {
                let stack = self.stack(name);
                let dim = self.metadata.encoder_dims[stack];
                let kernel = self.metadata.cnn_module_kernels[stack];
                if name.ends_with(".CC.weight") {
                    vec![(kernel + 1) / 2, 1, dim]
                } else if name.ends_with(".KC.weight") {
                    vec![kernel, 1, dim]
                } else if name.ends_with(".KC_scale") {
                    vec![2, dim, kernel]
                } else if name.contains(".NA.") {
                    vec![3 * NONLIN_DIM]
                } else if name.contains(".FF") {
                    vec![FEED_FORWARD_DIM]
                } else {
                    vec![self.metadata.num_heads[stack] * self.metadata.value_head_dims[stack]]
                }
            }
        };
        Ok(self.noisy_tensor(name, &dims))
    }

    fn load_vector(&self, name: &String, len: usize) -> Result<Vec<u32>, XasrWeightsError> {
        Ok(noisy(name, len, 0.3))
    }

    fn load_vector_from_contract(&self, name: &String) -> Result<Vec<u32>, XasrWeightsError> {
        Ok(noisy(name, self.list_len(name), 0.6))
    }

    fn load_native_linear(
        &self,
        name: &String,
        input_dim: usize,
        output_dim: usize,
    ) -> Result<StoredLinear, XasrWeightsError> {
        Ok(self.noisy_linear(name, input_dim, output_dim))
    }

    fn load_native_linear_from_contract(
        &self,
        name: &String,
    ) -> Result<StoredLinear, XasrWeightsError> {
        if name == "EE.out.weight" {
            return Ok(self.noisy_linear(name, 2432, self.metadata.encoder_dims[0]));
        }
        let dim = self.dim(name);
        let output_dim = if name.ends_with(".IP.weight") { 2 * dim } else { dim };
        Ok(self.noisy_linear(name, dim, output_dim))
    }

    fn load_native_linear_by_actual_dims(
        &self,
        name: &String,
    ) -> Result<StoredLinear, XasrWeightsError> {
        let heads = self.metadata.num_heads[self.stack(name)];
        Ok(self.noisy_linear(name, POSITION_DIM, heads * POSITION_HEAD_DIM))
    }
}

/// A pack that lacks one tensor.
struct Without<'a> {
    pack: &'a Pack,
    missing: String,
}

impl Without<'_> {
    fn check(&self, name: &str) -> Result<(), XasrWeightsError> {
        if name == self.missing {
            Err(XasrWeightsError::Source { reason: format!("{name} is missing") })
        } else {
            Ok(())
        }
    }
}

impl WeightSource for Without<'_> {
    fn load_named(&self, name: &String) -> Result<NamedTensor, XasrWeightsError> {
        self.check(name)?;
        self.pack.load_named(name)
    }

    fn load_vector(&self, name: &String, len: usize) -> Result<Vec<u32>, XasrWeightsError> {
        self.check(name)?;
        self.pack.load_vector(name, len)
    }

    fn load_vector_from_contract(&self, name: &String) -> Result<Vec<u32>, XasrWeightsError> {
        self.check(name)?;
        self.pack.load_vector_from_contract(name)
    }

    fn load_native_linear(
        &self,
        name: &String,
        input_dim: usize,
        output_dim: usize,
    ) -> Result<StoredLinear, XasrWeightsError> {
        self.check(name)?;
        self.pack.load_native_linear(name, input_dim, output_dim)
    }

    fn load_native_linear_from_contract(
        &self,
        name: &String,
    ) -> Result<StoredLinear, XasrWeightsError> {
        self.check(name)?;
        self.pack.load_native_linear_from_contract(name)
    }

    fn load_native_linear_by_actual_dims(
        &self,
        name: &String,
    ) -> Result<StoredLinear, XasrWeightsError> {
        self.check(name)?;
        self.pack.load_native_linear_by_actual_dims(name)
    }
}

fn small_pack() -> Pack {
    Pack {
        metadata: XasrZipformerExecutionMetadata {
            num_stacks: 1,
            num_encoder_layers: vec![2],
            encoder_dims: vec![8],
            query_head_dims: vec![3],
            value_head_dims: vec![2],
            num_heads: vec![2],
            cnn_module_kernels: vec![5],
            left_context_len: vec![4],
            downsampling_factors: vec![1],
            feature_dim: 80,
            decode_chunk_len: 8,
            joiner_dim: 4,
            decoder_context_size: 2,
            vocab_size: 5,
            blank_id: 0,
        },
    }
}

fn six_stack_pack() -> Pack {
    Pack {
        metadata: XasrZipformerExecutionMetadata {
            num_stacks: 6,
            num_encoder_layers: vec![1; 6],
            encoder_dims: vec![24, 32, 48, 768, 512, 256],
            query_head_dims: vec![3; 6],
            value_head_dims: vec![2; 6],
            num_heads: vec![2; 6],
            cnn_module_kernels: vec![5, 3, 3, 3, 3, 3],
            left_context_len: vec![8, 4, 2, 1, 2, 4],
            downsampling_factors: vec![1, 2, 4, 8, 4, 2],
            feature_dim: 80,
            decode_chunk_len: 16,
            joiner_dim: 4,
            decoder_context_size: 2,
            vocab_size: 5,
            blank_id: 0,
        },
    }
}

fn copy_metadata(from: &XasrZipformerExecutionMetadata) -> XasrZipformerExecutionMetadata {
    XasrZipformerExecutionMetadata {
        num_stacks: from.num_stacks,
        num_encoder_layers: from.num_encoder_layers.clone(),
        encoder_dims: from.encoder_dims.clone(),
        query_head_dims: from.query_head_dims.clone(),
        value_head_dims: from.value_head_dims.clone(),
        num_heads: from.num_heads.clone(),
        cnn_module_kernels: from.cnn_module_kernels.clone(),
        left_context_len: from.left_context_len.clone(),
        downsampling_factors: from.downsampling_factors.clone(),
        feature_dim: from.feature_dim,
        decode_chunk_len: from.decode_chunk_len,
        joiner_dim: from.joiner_dim,
        decoder_context_size: from.decoder_context_size,
        vocab_size: from.vocab_size,
        blank_id: from.blank_id,
    }
}

fn loaded(pack: &Pack) -> XasrEncoderWeights {
    match load_xasr_encoder_weights(pack, &pack.metadata) {
        Ok(weights) => weights,
        Err(error) => panic!("{}", error.message()),
    }
}

fn config() -> GgmlCpuGraphConfig {
    GgmlCpuGraphConfig {
        backend: GgmlCpuGraphBackend::Cpu,
        graph_size: 65_536,
        context_bytes: 1 << 24,
        n_threads: Some(1),
        use_scheduler: false,
    }
}

fn on_host(pack: &Pack) -> XasrZipformerEncoderGraph {
    match XasrZipformerEncoderGraph::new_reference(copy_metadata(&pack.metadata), loaded(pack)) {
        Ok(encoder) => encoder,
        Err(error) => panic!("{}", error.message()),
    }
}

fn first_stack_as_graph(pack: &Pack) -> XasrZipformerEncoderGraph {
    let made = XasrZipformerEncoderGraph::new_ggml_cpu_stack0(
        copy_metadata(&pack.metadata),
        loaded(pack),
        config(),
    );
    match made {
        Ok(encoder) => encoder,
        Err(error) => panic!("{}", error.message()),
    }
}

fn as_graph(pack: &Pack) -> XasrZipformerEncoderGraph {
    let made = XasrZipformerEncoderGraph::new_ggml_cpu_full_encoder(
        copy_metadata(&pack.metadata),
        loaded(pack),
        config(),
    );
    match made {
        Ok(encoder) => encoder,
        Err(error) => panic!("{}", error.message()),
    }
}

fn done(step: Result<EncodeStep, XasrEncoderGraphError>) -> XasrEncoderGraphOutput {
    match step {
        Ok(EncodeStep::Done(output)) => output,
        Ok(EncodeStep::Graph) => panic!("the host must encode"),
        Err(error) => panic!("{}", error.message()),
    }
}

#[test]
fn weights_are_loaded_under_their_names() {
    let pack = six_stack_pack();
    let weights = loaded(&pack);
    assert_eq!(weights.stacks.len(), 6);
    let layer = &weights.stacks[2].layers[0];
    assert_eq!(
        layer.feed_forward3.out_proj.weight.name,
        "E2.L0.FF3.OP.weight"
    );
    assert_eq!(layer.feed_forward3.out_proj.weight.input_dim, FEED_FORWARD_DIM);
    assert_eq!(layer.nonlin_attention.out_proj.weight.input_dim, NONLIN_DIM);
    assert_eq!(layer.self_attn_weights.in_proj.weight.output_dim, 2 * 2 * 3 + 2 * 3);
    assert_eq!(
        weights.stacks[0].layers[0].conv_module1.depthwise_causal_conv.weight.name,
        "E0.L0.CM1.DW.CC.weight"
    );
    assert!(weights.stacks[0].downsample_bias.is_none());
    assert_eq!(weights.stacks[3].downsample_bias.as_ref().unwrap().len(), 8);
    assert_eq!(weights.stacks[3].out_combiner_bypass_scale.as_ref().unwrap().len(), 768);
}

#[test]
fn a_missing_tensor_stops_the_loading() {
    let pack = small_pack();
    for missing in [
        "encoder_embed.conv.7.weight",
        "encoder.encoders.0.layers.1.self_attn_weights.linear_pos.weight",
        "encoder.encoders.0.layers.0.bypass_mid.bypass_scale",
        "encoder.downsample_output.bias",
    ] {
        let missing = compact_xasr_name(missing);
        let source = Without { pack: &pack, missing: missing.clone() };
        match load_xasr_encoder_weights(&source, &pack.metadata) {
            Ok(_) => panic!("{missing} was not asked for"),
            Err(error) => assert_eq!(error.message(), format!("{missing} is missing")),
        }
    }
}

/// A pack that notes the names it is asked for.
struct Noting<'a> {
    pack: &'a Pack,
    names: RefCell<Vec<String>>,
}

impl Noting<'_> {
    fn note(&self, name: &String) {
        self.names.borrow_mut().push(name.clone());
    }
}

impl WeightSource for Noting<'_> {
    fn load_named(&self, name: &String) -> Result<NamedTensor, XasrWeightsError> {
        self.note(name);
        self.pack.load_named(name)
    }

    fn load_vector(&self, name: &String, len: usize) -> Result<Vec<u32>, XasrWeightsError> {
        self.note(name);
        self.pack.load_vector(name, len)
    }

    fn load_vector_from_contract(&self, name: &String) -> Result<Vec<u32>, XasrWeightsError> {
        self.note(name);
        self.pack.load_vector_from_contract(name)
    }

    fn load_native_linear(
        &self,
        name: &String,
        input_dim: usize,
        output_dim: usize,
    ) -> Result<StoredLinear, XasrWeightsError> {
        self.note(name);
        self.pack.load_native_linear(name, input_dim, output_dim)
    }

    fn load_native_linear_from_contract(
        &self,
        name: &String,
    ) -> Result<StoredLinear, XasrWeightsError> {
        self.note(name);
        self.pack.load_native_linear_from_contract(name)
    }

    fn load_native_linear_by_actual_dims(
        &self,
        name: &String,
    ) -> Result<StoredLinear, XasrWeightsError> {
        self.note(name);
        self.pack.load_native_linear_by_actual_dims(name)
    }
}

#[test]
fn every_name_that_is_asked_for_is_short_and_its_own() {
    let pack = six_stack_pack();
    let source = Noting { pack: &pack, names: RefCell::new(Vec::new()) };
    load_xasr_encoder_weights(&source, &pack.metadata).unwrap();
    let mut names = source.names.into_inner();
    for name in [
        "decoder.embedding.weight",
        "decoder.conv.weight",
        "joiner.encoder_proj.weight",
        "joiner.encoder_proj.bias",
        "joiner.decoder_proj.weight",
        "joiner.decoder_proj.bias",
        "joiner.output_linear.weight",
        "joiner.output_linear.bias",
    ] {
        names.push(compact_xasr_name(name));
    }
    for name in &names {
        assert!(name.len() <= 26, "{name}");
    }
    let count = names.len();
    names.sort();
    names.dedup();
    assert_eq!(names.len(), count);
}

#[test]
fn unexpected_dims_are_refused() {
    let tensor = named("bias", &[2, 3], &[0.0; 6]);
    assert!(ensure_dims(&tensor, &[2, 3]).is_ok());
    match ensure_dims(&tensor, &[6]) {
        Ok(_) => panic!("dims must fit"),
        Err(error) => assert_eq!(
            error.message(),
            "xasr tensor 'bias' has dims [2, 3], expected [6]"
        ),
    }
}

#[test]
fn layer_prefixes_name_stack_and_layer() {
    assert_eq!(layer_prefix(0, 3), "encoder.encoders.0.layers.3");
    assert_eq!(layer_prefix(12, 0), "encoder.encoders.12.encoder.layers.0");
}

#[test]
fn retained_items_list_every_tensor_once() {
    let weights = loaded(&small_pack());
    let items = weights.retained_items();
    let labels: Vec<&str> = items.iter().map(|item| item.label.as_str()).collect();
    assert!(labels.contains(&"xasr encoder conv module1 chunkwise scale"));
    assert!(labels.contains(&"xasr encoder attention position projection"));
    assert!(labels.contains(&"xasr encoder mid bypass scale"));
    let norms = labels.iter().filter(|label| **label == "xasr encoder norm bias");
    assert_eq!(norms.count(), 2);
}

#[test]
fn first_stack_is_the_same_on_host_and_as_graph() {
    let pack = small_pack();
    let frames = 6;
    let rows = noisy("rows", frames * 8, 1.0);
    let expected = done(on_host(&pack).encode_stack0_from_embed_rows(&Floats, &rows, frames, 8, 3));

    let encoder = first_stack_as_graph(&pack);
    let mut graph = GgmlCpuGraphBuilder::new();
    let run = encoder
        .plan_stack0(&Floats, &mut graph, &rows, frames, 8, 3)
        .unwrap();
    let outputs = computed(&graph, &[(run.output, run.output_len)]);
    let actual = XasrZipformerEncoderGraph::finish_stack0(&run, outputs);
    assert_eq!((actual.frames, actual.dim), (expected.frames, expected.dim));
    assert_max_abs_diff("first stack", &actual.rows, &floats(&expected.rows), 2.0e-4);
    assert!(actual.rows != rows);
}

#[test]
fn encoder_is_the_same_on_host_and_as_graph() {
    let pack = six_stack_pack();
    let frames = 9;
    let rows = noisy("rows", frames * 24, 1.0);
    let expected = done(on_host(&pack).encode_from_embed_rows(&Floats, &rows, frames, 24, 1));
    assert_eq!((expected.frames, expected.dim), (8, 768));

    let encoder = as_graph(&pack);
    let mut graph = GgmlCpuGraphBuilder::new();
    let run = encoder
        .plan_full_encoder(&Floats, &mut graph, &rows, frames, 24, 1, None)
        .unwrap();
    let outputs = computed(&graph, &run.output_specs);
    let actual = XasrZipformerEncoderGraph::finish_full_encoder(&run, outputs);
    assert_eq!((actual.frames, actual.dim), (expected.frames, expected.dim));
    assert_max_abs_diff("encoder", &actual.rows, &floats(&expected.rows), 1.0e-3);
}

#[test]
fn chunk_caches_carry_over_to_the_next_chunk() {
    let pack = small_pack();
    let mut pack = pack;
    pack.metadata.num_encoder_layers = vec![1];
    let weights = loaded(&pack);
    let layer = &weights.stacks[0].layers[0];
    let frames = 5;
    let first = noisy("first chunk", frames * 8, 1.0);
    let second = noisy("second chunk", frames * 8, 1.0);
    let empty = XasrZipformerLayerReferenceCaches::empty();
    let one = zipformer_layer_streaming_reference(
        &Floats, layer, &first, frames, 8, 2, 3, 4, 4, empty,
    )
    .unwrap();
    let caches = XasrZipformerLayerReferenceCaches {
        cached_key: Some(&one.new_cached_key),
        cached_nonlin_attention: Some(&one.new_cached_nonlin_attention),
        cached_val1: Some(&one.new_cached_val1),
        cached_val2: Some(&one.new_cached_val2),
        cached_conv1: Some(&one.new_cached_conv1),
        cached_conv2: Some(&one.new_cached_conv2),
    };
    let two = zipformer_layer_streaming_reference(
        &Floats, layer, &second, frames, 8, 2, 3, 4, 4, caches,
    )
    .unwrap();

    let binding_site = first_stack_as_graph(&pack);
    let mut graph = GgmlCpuGraphBuilder::new();
    let run = binding_site
        .plan_stack0(&Floats, &mut graph, &first, frames, 8, 4)
        .unwrap();
    let layer_output = run.parts.layer_uploads[0].output;
    let outputs = computed(
        &graph,
        &[
            (layer_output.rows, frames * 8),
            (layer_output.new_cached_key, one.new_cached_key.len()),
            (
                layer_output.new_cached_nonlin_attention,
                one.new_cached_nonlin_attention.len(),
            ),
            (layer_output.new_cached_val1, one.new_cached_val1.len()),
            (layer_output.new_cached_val2, one.new_cached_val2.len()),
            (layer_output.new_cached_conv1, one.new_cached_conv1.len()),
            (layer_output.new_cached_conv2, one.new_cached_conv2.len()),
        ],
    );
    let expected = [
        &one.rows,
        &one.new_cached_key,
        &one.new_cached_nonlin_attention,
        &one.new_cached_val1,
        &one.new_cached_val2,
        &one.new_cached_conv1,
        &one.new_cached_conv2,
    ];
    for (actual, wanted) in outputs.iter().zip(expected) {
        assert_max_abs_diff("first chunk", actual, &floats(wanted), 2.0e-4);
    }

    let cache = XasrEncoderLayerCache {
        cached_key: outputs[1].clone(),
        cached_nonlin_attention: outputs[2].clone(),
        cached_val1: outputs[3].clone(),
        cached_val2: outputs[4].clone(),
        cached_conv1: outputs[5].clone(),
        cached_conv2: outputs[6].clone(),
    };
    graph.set_f32_slice(run.input, &second, "second chunk");
    upload_caches(&mut graph, &run.parts, Some(&[cache])).unwrap();
    let outputs = computed(&graph, &[(layer_output.rows, frames * 8)]);
    assert_max_abs_diff("second chunk", &outputs[0], &floats(&two.rows), 5.0e-4);
}

#[test]
fn a_kept_graph_takes_chunk_after_chunk() {
    let pack = six_stack_pack();
    let frames = 8;
    let mut encoder = as_graph(&pack);
    assert!(encoder.needs_rebuild(frames, 24, 1));
    let kept = encoder.build_reusable(&Floats, frames, 24, 1).unwrap();
    encoder.keep(kept);
    assert!(!encoder.needs_rebuild(frames, 24, 1));
    assert!(encoder.needs_rebuild(frames, 24, 2));

    let first = noisy("first chunk", frames * 24, 1.0);
    encoder.upload_chunk(&Floats, &first, None).unwrap();
    let kept = encoder.reusable().unwrap();
    let outputs = computed(&kept.graph, &kept.output_specs);
    let chunk = kept.finish_chunk(outputs);
    assert_eq!(chunk.layer_caches.len(), 6);

    let mut graph = GgmlCpuGraphBuilder::new();
    let run = encoder
        .plan_full_encoder(&Floats, &mut graph, &first, frames, 24, 1, None)
        .unwrap();
    let once = computed(&graph, &run.output_specs);
    assert_max_abs_diff("chunk", &chunk.output.rows, &floats(&once[0]), 1.0e-6);

    let second = noisy("second chunk", frames * 24, 1.0);
    encoder
        .upload_chunk(&Floats, &second, Some(&chunk.layer_caches))
        .unwrap();
    let kept = encoder.reusable().unwrap();
    let outputs = computed(&kept.graph, &kept.output_specs);
    let after = kept.finish_chunk(outputs);
    let mut graph = GgmlCpuGraphBuilder::new();
    let run = encoder
        .plan_full_encoder(
            &Floats,
            &mut graph,
            &second,
            frames,
            24,
            1,
            Some(&chunk.layer_caches),
        )
        .unwrap();
    let once = computed(&graph, &run.output_specs);
    assert_max_abs_diff("next chunk", &after.output.rows, &floats(&once[0]), 1.0e-6);

    assert_eq!(
        encoder
            .check_full_input(&second, frames, 24, 1, Some(&chunk.layer_caches[..5]))
            .unwrap_err()
            .message(),
        "xasr encoder graph shape error: full encoder got 5 layer cache(s), expected 6"
    );
}

#[test]
fn equal_chunks_give_equal_results_on_a_graph_built_anew() {
    let pack = six_stack_pack();
    let mut encoder = as_graph(&pack);
    let chunk = |name: &str, frames: usize| noisy(name, frames * 24, 1.0);
    let kept = encoder.build_reusable(&Floats, 8, 24, 1).unwrap();
    encoder.keep(kept);
    encoder.upload_chunk(&Floats, &chunk("warm-up", 8), None).unwrap();
    let kept = encoder.reusable().unwrap();
    let caches = kept.finish_chunk(computed(&kept.graph, &kept.output_specs)).layer_caches;
    encoder.upload_chunk(&Floats, &chunk("repeated", 8), Some(&caches)).unwrap();
    let kept = encoder.reusable().unwrap();
    let once = computed(&kept.graph, &kept.output_specs);

    assert!(encoder.needs_rebuild(4, 24, 1));
    let kept = encoder.build_reusable(&Floats, 4, 24, 1).unwrap();
    encoder.keep(kept);
    encoder.upload_chunk(&Floats, &chunk("other shape", 4), None).unwrap();

    assert!(encoder.needs_rebuild(8, 24, 1));
    let kept = encoder.build_reusable(&Floats, 8, 24, 1).unwrap();
    encoder.keep(kept);
    encoder.upload_chunk(&Floats, &chunk("repeated", 8), Some(&caches)).unwrap();
    let kept = encoder.reusable().unwrap();
    assert_eq!(computed(&kept.graph, &kept.output_specs), once);
}

/// Carries out uploads: each tensor holds the last one.
fn hold(device: &mut BTreeMap<usize, String>, effects: &[GraphEffect]) {
    for effect in effects {
        match effect {
            GraphEffect::UploadFloats { tensor, .. }
            | GraphEffect::UploadIntegers { tensor, .. }
            | GraphEffect::UploadBytes { tensor, .. } => {
                device.insert(*tensor, format!("{effect:?}"));
            }
            _ => {}
        }
    }
}

#[test]
fn equal_chunks_leave_the_device_holding_the_same() {
    let pack = six_stack_pack();
    let frames = 8;
    let mut encoder = as_graph(&pack);
    let kept = encoder.build_reusable(&Floats, frames, 24, 1).unwrap();
    encoder.keep(kept);
    let first = noisy("first chunk", frames * 24, 1.0);
    encoder.upload_chunk(&Floats, &first, None).unwrap();
    let kept = encoder.reusable().unwrap();
    let chunk = kept.finish_chunk(computed(&kept.graph, &kept.output_specs));
    let mut device = BTreeMap::new();
    hold(&mut device, kept.graph.effects());
    let after_first = device.clone();
    encoder.clear_effects();

    for name in ["second chunk", "third chunk"] {
        let rows = noisy(name, frames * 24, 1.0);
        encoder.upload_chunk(&Floats, &rows, Some(&chunk.layer_caches)).unwrap();
        hold(&mut device, encoder.reusable().unwrap().graph.effects());
        encoder.clear_effects();
        assert_ne!(device, after_first);

        let mut fresh = as_graph(&pack);
        let own = fresh.build_reusable(&Floats, frames, 24, 1).unwrap();
        fresh.keep(own);
        fresh.upload_chunk(&Floats, &rows, Some(&chunk.layer_caches)).unwrap();
        let mut alone = BTreeMap::new();
        hold(&mut alone, fresh.reusable().unwrap().graph.effects());
        assert_eq!(device, alone);
    }

    encoder.upload_chunk(&Floats, &first, None).unwrap();
    hold(&mut device, encoder.reusable().unwrap().graph.effects());
    encoder.clear_effects();
    assert_eq!(device, after_first);

    let zeros: Vec<XasrEncoderLayerCache> = chunk
        .layer_caches
        .iter()
        .map(|cache| XasrEncoderLayerCache {
            cached_key: vec![0; cache.cached_key.len()],
            cached_nonlin_attention: vec![0; cache.cached_nonlin_attention.len()],
            cached_val1: vec![0; cache.cached_val1.len()],
            cached_val2: vec![0; cache.cached_val2.len()],
            cached_conv1: vec![0; cache.cached_conv1.len()],
            cached_conv2: vec![0; cache.cached_conv2.len()],
        })
        .collect();
    encoder.upload_chunk(&Floats, &first, Some(&zeros)).unwrap();
    hold(&mut device, encoder.reusable().unwrap().graph.effects());
    assert_eq!(device, after_first);
}

#[test]
fn embedding_is_the_same_on_host_and_as_graph() {
    let pack = small_pack();
    let frames = 16;
    let rows = noisy("features", frames * 80, 1.0);
    let weights = loaded(&pack);
    let states = noisy("states", 128 * 3 * 19, 0.5);
    let expected =
        encode_embed_reference(&Floats, &weights.embed, &rows, frames, 80, Some(&states)).unwrap();

    let encoder = as_graph(&pack);
    let mut graph = GgmlCpuGraphBuilder::new();
    let input = XasrEncoderFeatureInput::new(frames, 80, rows).unwrap();
    let run = encoder.plan_embed(&mut graph, &input, Some(&states)).unwrap();
    let outputs = computed(
        &graph,
        &[
            (run.output.rows, run.rows_len),
            (run.output.new_embed_states, run.cache_len),
        ],
    );
    let actual = XasrZipformerEncoderGraph::finish_embed(&run, outputs);
    assert_eq!((actual.frames, actual.dim), (expected.frames, expected.dim));
    assert_max_abs_diff("embedding", &actual.rows, &floats(&expected.rows), 1.0e-3);
    assert_max_abs_diff(
        "embedding states",
        &actual.new_embed_states,
        &floats(&expected.new_embed_states),
        1.0e-3,
    );
}

#[test]
fn features_are_embedded_and_encoded() {
    let mut pack = small_pack();
    pack.metadata.left_context_len = vec![20];
    let encoder = on_host(&pack);
    let frames = 16;
    let rows = noisy("features", frames * 80, 1.0);
    let input = XasrEncoderFeatureInput::new(frames, 80, rows.clone()).unwrap();
    let embed =
        encode_embed_reference(&Floats, &encoder.weights().embed, &rows, frames, 80, None).unwrap();
    let embedded = encoder.embed_features(&Floats, &input).unwrap();
    assert_eq!(embedded.rows, embed.rows);
    let expected = done(encoder.encode_stack0_from_embed_rows(
        &Floats,
        &embed.rows,
        embed.frames,
        8,
        frames,
    ));
    match encoder.encode_stack0_from_features(&Floats, &input) {
        Ok(FeatureStep::Done(output)) => assert_eq!(output.rows, expected.rows),
        Ok(FeatureStep::Graph(_)) => panic!("the host must encode"),
        Err(error) => panic!("{}", error.message()),
    }
    match first_stack_as_graph(&pack).encode_stack0_from_features(&Floats, &input) {
        Ok(FeatureStep::Graph(embed)) => assert_eq!(embed.rows, embedded.rows),
        Ok(FeatureStep::Done(_)) => panic!("the graph must encode"),
        Err(error) => panic!("{}", error.message()),
    }
}

/// Runs a chunk step by step.
fn stepped(
    encoder: &mut XasrZipformerEncoderGraph,
    input: &XasrEncoderFeatureInput,
    state: Option<&XasrEncoderChunkState>,
) -> (XasrEncoderChunkOutput, bool) {
    let (graph, run) = match encoder.begin_chunk(input, state) {
        Ok(ChunkStep::Embedding { graph, run }) => (graph, run),
        Ok(_) => panic!("a chunk begins with its embedding"),
        Err(error) => panic!("{}", error.message()),
    };
    let outputs = computed(
        &graph,
        &[
            (run.output.rows, run.rows_len),
            (run.output.new_embed_states, run.cache_len),
        ],
    );
    let mut started = false;
    let mut step = encoder
        .chunk_embedded(&Floats, input, state, &run, outputs)
        .unwrap();
    if let ChunkStep::Session { built, embed } = step {
        started = true;
        step = encoder
            .chunk_session_started(&Floats, state, built, embed)
            .unwrap();
    }
    let embed_states = match step {
        ChunkStep::Encoding { embed_states } => embed_states,
        _ => panic!("a graph is kept once its session was started"),
    };
    let kept = encoder.reusable().unwrap();
    assert_eq!(kept.valid_left_context, input.frames);
    let mut all = GgmlCpuGraphBuilder::new();
    let embed = encoder.plan_embed(&mut all, input, None).unwrap();
    assert_eq!(kept.frames, embed.binding.shape.embed_frames);
    let outputs = if started {
        computed(&kept.graph, &kept.output_specs)
    } else {
        kept.output_specs.iter().map(|(_, len)| vec![0; *len]).collect()
    };
    (encoder.chunk_encoded(embed_states, outputs), started)
}

#[test]
fn chunks_of_a_stream_keep_their_graph() {
    let mut pack = small_pack();
    pack.metadata.left_context_len = vec![20];
    let mut encoder = as_graph(&pack);
    let frames = 16;
    let input =
        XasrEncoderFeatureInput::new(frames, 80, noisy("features", frames * 80, 1.0)).unwrap();
    let (first, started) = stepped(&mut encoder, &input, None);
    assert!(started);
    assert_eq!(first.state.layer_caches.len(), 2);
    let kept = encoder.reusable().unwrap();
    assert!(kept.static_uploaded);
    assert!(kept.graph.effects().is_empty());

    let expected =
        encode_embed_reference(&Floats, &encoder.weights().embed, &input.rows, frames, 80, None)
            .unwrap();
    let mut graph = GgmlCpuGraphBuilder::new();
    let run = encoder
        .plan_full_encoder(&Floats, &mut graph, &expected.rows, expected.frames, 8, frames, None)
        .unwrap();
    let once = computed(&graph, &run.output_specs);
    assert_max_abs_diff("chunk", &first.output.rows, &floats(&once[0]), 2.0e-3);
    assert_max_abs_diff(
        "embedding states",
        &first.state.embed_states,
        &floats(&expected.new_embed_states),
        1.0e-3,
    );

    let (_, started) = stepped(&mut encoder, &input, Some(&first.state));
    assert!(!started);
}

#[test]
fn chunks_are_for_the_graph_of_the_whole_encoder() {
    let pack = small_pack();
    let input = XasrEncoderFeatureInput::new(1, 80, vec![0; 80]).unwrap();
    match on_host(&pack).begin_chunk(&input, None) {
        Ok(_) => panic!("the host has no chunks"),
        Err(error) => assert_eq!(
            error.message(),
            "xasr encoder graph shape error: streaming chunk execution requires \
             GgmlCpuFullEncoder backend"
        ),
    }
}

#[test]
fn zeros_stand_for_no_caches() {
    let pack = small_pack();
    let encoder = as_graph(&pack);
    let frames = 6;
    let rows = noisy("rows", frames * 8, 1.0);
    let mut bare = GgmlCpuGraphBuilder::new();
    encoder
        .plan_full_encoder(&Floats, &mut bare, &rows, frames, 8, 1, None)
        .unwrap();
    let fresh = || XasrEncoderLayerCache {
        cached_key: vec![0; 4 * 6],
        cached_nonlin_attention: vec![0; 4 * NONLIN_DIM],
        cached_val1: vec![0; 4 * 4],
        cached_val2: vec![0; 4 * 4],
        cached_conv1: vec![0; 8 * 2],
        cached_conv2: vec![0; 8 * 2],
    };
    let caches = [fresh(), fresh()];
    let mut cached = GgmlCpuGraphBuilder::new();
    encoder
        .plan_full_encoder(&Floats, &mut cached, &rows, frames, 8, 1, Some(&caches))
        .unwrap();
    assert_eq!(format!("{:?}", bare.effects()), format!("{:?}", cached.effects()));
    let mut targets: Vec<usize> = bare
        .effects()
        .iter()
        .filter_map(|effect| match effect {
            GraphEffect::UploadBytes { tensor, .. } => Some(*tensor),
            GraphEffect::UploadFloats { tensor, .. } => Some(*tensor),
            GraphEffect::UploadIntegers { tensor, .. } => Some(*tensor),
            _ => None,
        })
        .collect();
    let count = targets.len();
    targets.sort();
    targets.dedup();
    assert_eq!(targets.len(), count);
    assert!(count > 2 * 66);
}

#[test]
fn constant_weights_are_a_softmax() {
    let weights = softmax_for_graph(&Floats, &bits(&[0.0, 0.0])).unwrap();
    assert_eq!(floats(&weights), vec![0.5, 0.5]);
    let weights = softmax_for_graph(&Floats, &bits(&[f32::NEG_INFINITY, 3.0])).unwrap();
    assert_eq!(floats(&weights), vec![0.0, 1.0]);
    for refused in [
        vec![],
        vec![f32::NAN],
        vec![1.0, f32::INFINITY],
        vec![f32::NEG_INFINITY],
    ] {
        assert!(softmax_for_graph(&Floats, &bits(&refused)).is_err());
    }
}

#[test]
fn a_failing_layer_is_named() {
    let pack = small_pack();
    let rows = noisy("rows", 48, 1.0);
    let failed = on_host(&pack).encode_stack0_from_embed_rows(&Floats, &rows, 6, 8, 5);
    match failed {
        Ok(_) => panic!("more context than is kept cannot be valid"),
        Err(error) => assert_eq!(
            error.message(),
            "xasr encoder reference backend failed at stack0_layer: layer 0: \
             xasr attention valid left context 5 exceeds 4"
        ),
    }
}

#[test]
fn encoder_input_is_checked() {
    let pack = small_pack();
    let encoder = on_host(&pack);
    let rows = noisy("rows", 16, 1.0);
    let wrong_dim = encoder.encode_stack0_from_embed_rows(&Floats, &rows, 2, 7, 3);
    assert!(wrong_dim.is_err());
    let wrong_len = encoder.encode_stack0_from_embed_rows(&Floats, &rows, 3, 8, 3);
    assert!(wrong_len.is_err());
    let graph = first_stack_as_graph(&pack);
    assert!(graph.check_stack0_input(&rows, 2, 8, 3).is_ok());
    assert!(graph.check_stack0_input(&rows, 2, 8, 0).is_err());
}

fn head_predictor() -> XasrDecoder {
    XasrDecoder::new(
        XasrDecoderWeights {
            embedding: linear(
                "decoder.EMB.weight",
                4,
                3,
                &[
                    0.0, 0.0, 0.0, 0.0, // blank
                    0.1, -0.2, 0.3, 0.4, // token 1
                    0.5, 0.6, -0.7, 0.8, // token 2
                ],
            ),
            conv_weight: named(
                "decoder.conv.weight",
                &[2, 2, 4],
                &[
                    1.0, -0.5, 0.25, 2.0, //
                    0.5, 1.5, -1.0, 0.75, //
                    -0.25, 1.0, 0.5, 0.5, //
                    2.0, -1.0, 1.25, 0.1,
                ],
            ),
            groups: 2,
        },
        2,
        0,
    )
}

fn head_joiner() -> XasrJoiner {
    XasrJoiner::new(XasrJoinerWeights {
        encoder_proj_weight: linear("joiner.EP.weight", 3, 2, &[0.5, -1.0, 0.25, 1.0, 0.5, -0.75]),
        encoder_proj_bias: bits(&[0.1, -0.2]),
        decoder_proj_weight: linear(
            "joiner.DP.weight",
            4,
            2,
            &[1.0, 0.5, -0.5, 0.25, -1.0, 0.75, 0.5, 2.0],
        ),
        decoder_proj_bias: bits(&[-0.3, 0.4]),
        output_linear_weight: linear(
            "joiner.OL.weight",
            2,
            3,
            &[-1.0, 0.5, 2.0, 1.0, 0.5, -2.0],
        ),
        output_linear_bias: bits(&[0.05, -0.1, 0.2]),
    })
}

fn payload(name: &str, dims: &[usize], values: &[f32]) -> HeadPayload {
    HeadPayload {
        name: name.to_string(),
        dims: dims.to_vec(),
        ggml_type: 0,
        bytes: values.iter().flat_map(|value| value.to_le_bytes()).collect(),
    }
}

/// A pack that holds the tensors of the predictor and joiner.
struct HeadPack {
    unknown: &'static str,
    damaged: &'static str,
    misshapen: &'static str,
}

const SOUND_PACK: HeadPack = HeadPack { unknown: "", damaged: "", misshapen: "" };

impl HeadSource for HeadPack {
    fn expects(&self, name: &String) -> bool {
        name != self.unknown
    }

    fn payload(&self, name: &String) -> Result<HeadPayload, String> {
        if name == self.damaged {
            return Err(format!("{name} is damaged"));
        }
        let stored = |dims: &[usize], values: &[f32]| Ok(payload(name, dims, values));
        match name.as_str() {
            "decoder.EMB.weight" => stored(
                &[4, 3],
                &[0.0, 0.0, 0.0, 0.0, 0.1, -0.2, 0.3, 0.4, 0.5, 0.6, -0.7, 0.8],
            ),
            "decoder.conv.weight" => stored(
                &[2, 2, 4],
                &[
                    1.0, -0.5, 0.25, 2.0, 0.5, 1.5, -1.0, 0.75, -0.25, 1.0, 0.5, 0.5, 2.0, -1.0,
                    1.25, 0.1,
                ],
            ),
            "joiner.encoder_proj.weight" => stored(&[3, 2], &[0.5, -1.0, 0.25, 1.0, 0.5, -0.75]),
            "joiner.encoder_proj.bias" => stored(&[2], &[0.1, -0.2]),
            "joiner.decoder_proj.weight" => {
                stored(&[4, 2], &[1.0, 0.5, -0.5, 0.25, -1.0, 0.75, 0.5, 2.0])
            }
            "joiner.decoder_proj.bias" => stored(&[2], &[-0.3, 0.4]),
            "joiner.OL.weight" => stored(&[2, 3], &[-1.0, 0.5, 2.0, 1.0, 0.5, -2.0]),
            "joiner.OL.bias" => stored(&[3], &[0.05, -0.1, 0.2]),
            other => panic!("{other} is in no pack"),
        }
    }

    fn matches(&self, name: &String, _dims: &Vec<usize>) -> bool {
        name != self.misshapen
    }

    fn describe(&self, _name: &String) -> String {
        "expected [9]".to_string()
    }
}

fn reason<T>(result: Result<T, String>) -> String {
    match result {
        Ok(_) => panic!("a refusal was expected"),
        Err(reason) => reason,
    }
}

const HEAD_SHAPE: HeadShape = HeadShape {
    context_size: 2,
    encoder_dim: 3,
    decoder_dim: 4,
    groups: 2,
    joiner_dim: 2,
    vocab_size: 3,
    blank_id: 0,
};

#[test]
fn a_device_head_is_refused_in_order() {
    let too_wide = HeadShape { context_size: 3, decoder_dim: usize::MAX, groups: 1, ..HEAD_SHAPE };
    assert_eq!(
        reason(plan_device_head(&SOUND_PACK, too_wide)),
        "xasr decoder packed group width overflowed"
    );
    let pack = HeadPack { damaged: "joiner.OL.bias", ..SOUND_PACK };
    assert_eq!(reason(plan_device_head(&pack, too_wide)), "joiner.OL.bias is damaged");
    let mut payloads = load_head_payloads(&SOUND_PACK).unwrap();
    payloads.decoder_proj_bias.dims = vec![1; 5];
    payloads.output_weight.dims = vec![6];
    assert_eq!(
        reason(plan_head_weights(&mut GgmlCpuGraphBuilder::new(), &payloads, 2)),
        "xasr device head tensor 'joiner.decoder_proj.bias' has more than four dims"
    );
}

#[test]
fn head_graphs_give_what_the_host_gives() {
    let joiner = head_joiner();
    let frame = bits(&[0.2, -0.4, 1.5]);
    let context = [1_u32, 2];
    let mut scratch = joiner.scratch();
    joiner.project_encoder_frame(&Floats, &frame, &mut scratch).unwrap();
    let state = head_predictor().decode_context(&Floats, &context).unwrap();
    joiner.project_decoder_state(&Floats, &state, &mut scratch).unwrap();
    joiner.logits_from_projected(&Floats, &mut scratch).unwrap();
    let token = argmax(&scratch.logits).unwrap();
    let probability = joiner.token_probability(&Floats, &scratch, token).unwrap();

    let DeviceHeadPlan { mut graph, encoder, decoder, joint, .. } =
        plan_device_head(&SOUND_PACK, HEAD_SHAPE).unwrap();
    graph.set_f32_slice(encoder.input, &frame, "frame");
    graph.set_i32_slice(decoder.input, &[1, 2], "context");
    let outputs = computed(
        &graph,
        &[
            (encoder.write, 2),
            (decoder.write, 2),
            (joint.top1, 1),
            (joint.selected_probability, 1),
        ],
    );
    assert_max_abs_diff("encoder projection", &outputs[0], &floats(&scratch.enc), 1.0e-5);
    assert_max_abs_diff("decoder projection", &outputs[1], &floats(&scratch.dec), 1.0e-5);
    assert_eq!(floats(&outputs[2]), vec![token as f32]);
    assert_max_abs_diff("probability", &outputs[3], &[float(probability)], 1.0e-5);
}

#[test]
fn head_weights_are_allocated_and_then_uploaded() {
    let mut payloads: HeadPayloads = load_head_payloads(&SOUND_PACK).unwrap();
    let mut graph = GgmlCpuGraphBuilder::new();
    let weights = plan_head_weights(&mut graph, &payloads, 2).unwrap();
    assert_eq!(graph.nodes().len(), 10);
    assert_eq!(graph.effects().len(), 10);
    match &graph.effects()[1] {
        GraphEffect::UploadBytes { tensor, bytes, ggml_type, name } => {
            assert_eq!(*tensor, weights.decoder_conv.id);
            assert_eq!(bytes, &payloads.decoder_conv.bytes);
            assert_eq!(*ggml_type, 0);
            assert_eq!(*name, "xasr_head_decoder_conv");
        }
        other => panic!("{other:?} is no upload of bytes"),
    }
    match &graph.nodes()[weights.decoder_conv.id] {
        GraphNode::Leaf { shape, .. } => assert_eq!(sizes(shape), [2, 2, 4, 1]),
        other => panic!("{other:?} is no leaf"),
    }
    assert_eq!(uploaded(graph.effects(), weights.decoder_projection.id), vec![0.0, 0.0]);

    let mut targets: Vec<usize> = graph
        .effects()
        .iter()
        .map(|effect| match effect {
            GraphEffect::UploadBytes { tensor, .. } => *tensor,
            GraphEffect::UploadFloats { tensor, .. } => *tensor,
            other => panic!("{other:?} is no upload"),
        })
        .collect();
    targets.sort();
    targets.dedup();
    assert_eq!(targets.len(), 10);

    payloads.output_weight.dims = vec![6];
    let mut graph = GgmlCpuGraphBuilder::new();
    assert_eq!(
        reason(plan_head_weights(&mut graph, &payloads, 2)),
        "xasr device head tensor 'joiner.OL.weight' must be rank 2"
    );
}

#[test]
fn stored_tensors_of_the_head_are_checked() {
    let stored = checked_payload(&SOUND_PACK, "joiner.output_linear.weight").unwrap();
    assert_eq!(stored.name, "joiner.OL.weight");
    assert_eq!(stored.dims, vec![2, 3]);
    let pack = HeadPack { unknown: "joiner.OL.bias", ..SOUND_PACK };
    assert_eq!(
        reason(load_head_payloads(&pack)),
        "tensor 'joiner.OL.bias' is not part of the xasr-zipformer runtime contract"
    );
    let pack = HeadPack { damaged: "decoder.EMB.weight", ..SOUND_PACK };
    assert_eq!(reason(load_head_payloads(&pack)), "decoder.EMB.weight is damaged");
    let pack = HeadPack {
        unknown: "joiner.decoder_proj.bias",
        damaged: "joiner.OL.bias",
        ..SOUND_PACK
    };
    assert_eq!(
        reason(load_head_payloads(&pack)),
        "tensor 'joiner.decoder_proj.bias' is not part of the xasr-zipformer runtime contract"
    );
    let pack = HeadPack { misshapen: "joiner.OL.weight", ..SOUND_PACK };
    assert_eq!(
        reason(checked_payload(&pack, "joiner.output_linear.weight")),
        "xasr device head tensor 'joiner.OL.weight' has dims [2, 3]: expected [9]"
    );
    let payloads = load_head_payloads(&SOUND_PACK).unwrap();
    let mut graph = GgmlCpuGraphBuilder::new();
    let weights = plan_head_weights(&mut graph, &payloads, 2).unwrap();
    assert_eq!(
        reason(build_decoder_projection(&mut graph, &weights, 3, usize::MAX, 1)),
        "xasr decoder packed group width overflowed"
    );
}

#[test]
fn a_head_knows_the_token_chosen_last() {
    let mut head = XasrDeviceHead::new(2, 3, 5, 4);
    assert_eq!(head.initial_context(), vec![4, 4]);
    assert_eq!(head.check_encoder_frame(&bits(&[1.0, 2.0, 3.0])), Ok(()));
    assert_eq!(
        reason(head.check_encoder_frame(&bits(&[1.0]))),
        "xasr device head encoder frame has 1 values, expected 3"
    );
    assert_eq!(head.context_token_ids(&[4, 1]), Ok(vec![4, 1]));
    assert_eq!(
        reason(head.context_token_ids(&[4])),
        "xasr device head context has 1 tokens, expected 2"
    );
    assert_eq!(
        reason(head.context_token_ids(&[4, 5])),
        "xasr device head token 5 exceeds vocab 5"
    );
    let wide = XasrDeviceHead::new(1, 3, usize::MAX, 0);
    assert_eq!(
        reason(wide.context_token_ids(&[0x8000_0000])),
        "xasr device head token 2147483648 exceeds i32"
    );
    assert_eq!(
        reason(head.token_probability(2)),
        "xasr device head probability requested for token 2 before selection"
    );
    assert_eq!(head.take_choice(2, 0.75_f32.to_bits()), Ok(2));
    assert_eq!(head.token_probability(2), Ok(0.75_f32.to_bits()));
    assert_eq!(
        reason(head.token_probability(1)),
        "xasr device head probability requested for token 1 before selection"
    );
    assert_eq!(
        reason(head.take_choice(-1, 0.5_f32.to_bits())),
        "xasr device head selected token -1 outside vocab 5"
    );
    assert_eq!(
        reason(head.take_choice(5, 0.5_f32.to_bits())),
        "xasr device head selected token 5 outside vocab 5"
    );
    assert_eq!(
        reason(head.take_choice(1, f32::NAN.to_bits())),
        "xasr device head selected a non-finite probability"
    );
    assert_eq!(head.token_probability(2), Ok(0.75_f32.to_bits()));
}

#[test]
fn attention_to_itself_gives_the_rows_back() {
    let identity = |name: &str| {
        let mut values = vec![0.0_f32; 16];
        for i in 0..4 {
            values[i * 4 + i] = 1.0;
        }
        with_bias(linear(name, 4, 4, &values), &[0.0; 4])
    };
    let weights = XasrLinearPairWeights {
        in_proj: identity("in_proj"),
        out_proj: identity("out_proj"),
    };
    let rows = bits(&[1.0, 2.0, 3.0, 4.0, 5.0, 6.0, 7.0, 8.0]);
    // Two heads, two frames, one frame of context that no frame looks at.
    let attention = bits(&[0.0, 1.0, 0.0, 0.0, 0.0, 1.0, 0.0, 1.0, 0.0, 0.0, 0.0, 1.0]);
    let output =
        self_attention_streaming_reference(&Floats, &weights, &rows, &attention, 2, 4, 2, 1, None)
            .unwrap();
    assert_eq!(output.rows, rows);
    assert_eq!(output.new_cache, bits(&[5.0, 6.0, 7.0, 8.0]));
}

#[test]
fn the_output_is_as_wide_as_the_widest_stack() {
    let mut metadata = tiny_metadata();
    metadata.num_encoder_layers = vec![2, 3, 5];
    metadata.encoder_dims = vec![192, 512, 256];
    assert_eq!(metadata.total_encoder_layers(), 10);
    assert_eq!(metadata.encoder_output_dim(), 512);
}
