//! Weights of the encoder.

use vstd::prelude::*;

verus! {

/// The stored bytes of a matrix operand.
#[derive(Clone, Debug, PartialEq)]
pub struct NativePayload {
    pub ggml_type: u32,
    pub bytes: Vec<u8>,
}

/// A weight matrix with `output_dim` rows of `input_dim` elements.
#[derive(Clone, Debug, PartialEq)]
pub struct StoredLinear {
    pub name: String,
    pub input_dim: usize,
    pub output_dim: usize,
    /// Float bit patterns, row by row.
    pub values: Vec<u32>,
    /// The matrix as the pack stores it, where it is not kept as floats.
    pub native: Option<NativePayload>,
}

/// A tensor of a pack.
#[derive(Clone, Debug, PartialEq)]
pub struct NamedTensor {
    pub name: String,
    /// Dimensions, the fastest varying first.
    pub dims: Vec<usize>,
    /// Float bit patterns.
    pub values: Vec<u32>,
}

#[derive(Clone, Debug)]
pub struct XasrLinearWithBias {
    pub weight: StoredLinear,
    pub bias: Vec<u32>,
}

#[derive(Clone, Debug)]
pub struct XasrLinearPairWeights {
    pub in_proj: XasrLinearWithBias,
    pub out_proj: XasrLinearWithBias,
}

#[derive(Clone, Debug)]
pub struct XasrSelfAttentionWeightsWeights {
    pub in_proj: XasrLinearWithBias,
    pub linear_pos: StoredLinear,
}

#[derive(Clone, Debug)]
pub struct XasrNonlinAttentionWeights {
    pub in_proj: XasrLinearWithBias,
    pub out_proj: XasrLinearWithBias,
}

#[derive(Clone, Debug, PartialEq)]
pub struct XasrConv1dWeights {
    pub weight: NamedTensor,
    pub bias: Vec<u32>,
}

#[derive(Clone, Debug, PartialEq)]
pub struct XasrConv2dWeights {
    pub weight: NamedTensor,
    pub bias: Vec<u32>,
}

#[derive(Clone, Debug)]
pub struct XasrConvolutionModuleWeights {
    pub in_proj: XasrLinearWithBias,
    pub depthwise_causal_conv: XasrConv1dWeights,
    pub depthwise_chunkwise_conv: XasrConv1dWeights,
    pub chunkwise_conv_scale: NamedTensor,
    pub out_proj: XasrLinearWithBias,
}

#[derive(Clone, Debug)]
pub struct XasrEncoderLayerWeights {
    pub feed_forward1: XasrLinearPairWeights,
    pub feed_forward2: XasrLinearPairWeights,
    pub feed_forward3: XasrLinearPairWeights,
    pub self_attn_weights: XasrSelfAttentionWeightsWeights,
    pub self_attn1: XasrLinearPairWeights,
    pub self_attn2: XasrLinearPairWeights,
    pub nonlin_attention: XasrNonlinAttentionWeights,
    pub conv_module1: XasrConvolutionModuleWeights,
    pub conv_module2: XasrConvolutionModuleWeights,
    pub norm_bias: Vec<u32>,
    pub norm_log_scale: Vec<u32>,
    pub bypass_scale: Vec<u32>,
    pub bypass_mid_scale: Vec<u32>,
}

#[derive(Clone, Debug)]
pub struct XasrEncoderStackWeights {
    pub stack: usize,
    pub dim: usize,
    pub downsampling_factor: usize,
    pub layers: Vec<XasrEncoderLayerWeights>,
    pub downsample_bias: Option<Vec<u32>>,
    pub out_combiner_bypass_scale: Option<Vec<u32>>,
}

#[derive(Clone, Debug)]
pub struct XasrEncoderEmbedWeights {
    pub conv0: XasrConv2dWeights,
    pub conv4: XasrConv2dWeights,
    pub conv7: XasrConv2dWeights,
    pub convnext_depthwise: XasrConv2dWeights,
    pub convnext_pointwise1: XasrConv2dWeights,
    pub convnext_pointwise2: XasrConv2dWeights,
    pub out: XasrLinearWithBias,
    pub out_norm_bias: Vec<u32>,
    pub out_norm_log_scale: Vec<u32>,
}

#[derive(Clone, Debug)]
pub struct XasrEncoderWeights {
    pub embed: XasrEncoderEmbedWeights,
    pub stacks: Vec<XasrEncoderStackWeights>,
    pub downsample_output_bias: Vec<u32>,
}

} // verus!
