//! A layer of the encoder on the host.

use vstd::prelude::*;
use crate::decoder::text_outcome;
use crate::encoder_tables::{is_masked, mask_refusal, streaming_key_padding_mask};
use crate::encoder_weights::XasrEncoderLayerWeights;
use crate::float_ops;
use crate::float_ops::{FloatModel, FloatOps};
use crate::reference_attention::{
    attention_can_run, attention_values, self_attention_weights_streaming_reference,
};
use crate::reference_conv_module::{
    convolution_can_run, convolution_module_streaming_reference, convolution_values,
};
use crate::reference_rows::{
    add_frame_rows, added, bias_norm_last_dim, bypass_reference, bypassed, feed_forward_reference,
    feed_forward_rows, frame_rows_refusal, normed, validate_frame_rows,
};
use crate::reference_values::{
    nonlin_attention_streaming_reference, nonlin_values, self_attention_streaming_reference,
    self_attention_values, values_can_run,
};

verus! {

/// What a layer remembers of earlier chunks.
#[derive(Clone, Copy, Debug, PartialEq)]
pub struct XasrZipformerLayerReferenceCaches<'a> {
    pub cached_key: Option<&'a [u32]>,
    pub cached_nonlin_attention: Option<&'a [u32]>,
    pub cached_val1: Option<&'a [u32]>,
    pub cached_val2: Option<&'a [u32]>,
    pub cached_conv1: Option<&'a [u32]>,
    pub cached_conv2: Option<&'a [u32]>,
}

/// What a layer remembers of earlier chunks.
pub struct LayerCaches {
    pub key: Option<Seq<u32>>,
    pub nonlin_attention: Option<Seq<u32>>,
    pub val1: Option<Seq<u32>>,
    pub val2: Option<Seq<u32>>,
    pub conv1: Option<Seq<u32>>,
    pub conv2: Option<Seq<u32>>,
}

impl<'a> XasrZipformerLayerReferenceCaches<'a> {
    /// The caches by their contents.
    pub open spec fn contents(self) -> LayerCaches {
        LayerCaches {
            key: float_ops::option_view(self.cached_key),
            nonlin_attention: float_ops::option_view(self.cached_nonlin_attention),
            val1: float_ops::option_view(self.cached_val1),
            val2: float_ops::option_view(self.cached_val2),
            conv1: float_ops::option_view(self.cached_conv1),
            conv2: float_ops::option_view(self.cached_conv2),
        }
    }

    /// Caches that remember nothing.
    pub fn empty() -> (caches: Self)
        ensures
            caches.contents() == LayerCaches::nothing(),
    {
        XasrZipformerLayerReferenceCaches {
            cached_key: None,
            cached_nonlin_attention: None,
            cached_val1: None,
            cached_val2: None,
            cached_conv1: None,
            cached_conv2: None,
        }
    }
}

impl LayerCaches {
    /// Caches that remember nothing.
    pub open spec fn nothing() -> LayerCaches {
        LayerCaches {
            key: None,
            nonlin_attention: None,
            val1: None,
            val2: None,
            conv1: None,
            conv2: None,
        }
    }
}

/// What a layer gives.
#[derive(Clone, Debug, PartialEq)]
pub struct XasrZipformerLayerReferenceOutput {
    /// One row for each frame.
    pub rows: Vec<u32>,
    pub new_cached_key: Vec<u32>,
    pub new_cached_nonlin_attention: Vec<u32>,
    pub new_cached_val1: Vec<u32>,
    pub new_cached_val2: Vec<u32>,
    pub new_cached_conv1: Vec<u32>,
    pub new_cached_conv2: Vec<u32>,
}

/// What a layer gives.
pub struct LayerValues {
    pub rows: Seq<u32>,
    pub key: Seq<u32>,
    pub nonlin_attention: Seq<u32>,
    pub val1: Seq<u32>,
    pub val2: Seq<u32>,
    pub conv1: Seq<u32>,
    pub conv2: Seq<u32>,
}

impl XasrZipformerLayerReferenceOutput {
    /// The output by its contents.
    pub open spec fn values(self) -> LayerValues {
        LayerValues {
            rows: self.rows@,
            key: self.new_cached_key@,
            nonlin_attention: self.new_cached_nonlin_attention@,
            val1: self.new_cached_val1@,
            val2: self.new_cached_val2@,
            conv1: self.new_cached_conv1@,
            conv2: self.new_cached_conv2@,
        }
    }
}

/// What the first half of a layer gives.
pub struct FrontValues {
    pub rows: Seq<u32>,
    pub nonlin_attention: Seq<u32>,
    pub val1: Seq<u32>,
    pub conv1: Seq<u32>,
}

/// What the second half of a layer gives.
pub struct BackValues {
    pub rows: Seq<u32>,
    pub val2: Seq<u32>,
    pub conv2: Seq<u32>,
}

/// The first half of a layer, up to the middle bypass, or why it fails.
pub open spec fn front_values(
    m: FloatModel,
    layer: XasrEncoderLayerWeights,
    rows: Seq<u32>,
    attention: Seq<u32>,
    frames: usize,
    dim: usize,
    num_heads: usize,
    left_context_len: usize,
    caches: LayerCaches,
) -> Result<FrontValues, Seq<char>> {
    match feed_forward_rows(m, layer.feed_forward1, rows, frames, dim) {
        Err(reason) => Err(reason),
        Ok(ff1) => match added(m, rows, ff1) {
            Err(reason) => Err(reason),
            Ok(add6) => match nonlin_values(
                m,
                layer.nonlin_attention,
                add6,
                attention.take(frames * (left_context_len + frames)),
                frames,
                dim,
                1,
                left_context_len,
                caches.nonlin_attention,
            ) {
                Err(reason) => Err(reason),
                Ok(nonlin) => match added(m, add6, nonlin.rows) {
                    Err(reason) => Err(reason),
                    Ok(add8) => match self_attention_values(
                        m,
                        layer.self_attn1,
                        add8,
                        attention,
                        frames,
                        dim,
                        num_heads,
                        left_context_len,
                        caches.val1,
                    ) {
                        Err(reason) => Err(reason),
                        Ok(self1) => match added(m, add8, self1.rows) {
                            Err(reason) => Err(reason),
                            Ok(add10) => match convolution_values(
                                m,
                                layer.conv_module1,
                                add10,
                                frames,
                                dim,
                                caches.conv1,
                                None,
                            ) {
                                Err(reason) => Err(reason),
                                Ok(conv1) => match added(m, add10, conv1.rows) {
                                    Err(reason) => Err(reason),
                                    Ok(add15) => match feed_forward_rows(
                                        m,
                                        layer.feed_forward2,
                                        add15,
                                        frames,
                                        dim,
                                    ) {
                                        Err(reason) => Err(reason),
                                        Ok(ff2) => match added(m, add15, ff2) {
                                            Err(reason) => Err(reason),
                                            Ok(add16) => match bypassed(
                                                m,
                                                rows,
                                                add16,
                                                layer.bypass_mid_scale@,
                                                frames,
                                                dim,
                                            ) {
                                                Err(reason) => Err(reason),
                                                Ok(mid) => Ok(
                                                    FrontValues {
                                                        rows: mid,
                                                        nonlin_attention: nonlin.cache,
                                                        val1: self1.cache,
                                                        conv1: conv1.cache,
                                                    },
                                                ),
                                            },
                                        },
                                    },
                                },
                            },
                        },
                    },
                },
            },
        },
    }
}

/// The second half of a layer, from the middle bypass on, or why it fails.
pub open spec fn back_values(
    m: FloatModel,
    layer: XasrEncoderLayerWeights,
    rows: Seq<u32>,
    mid: Seq<u32>,
    attention: Seq<u32>,
    frames: usize,
    dim: usize,
    num_heads: usize,
    left_context_len: usize,
    caches: LayerCaches,
) -> Result<BackValues, Seq<char>> {
    match self_attention_values(
        m,
        layer.self_attn2,
        mid,
        attention,
        frames,
        dim,
        num_heads,
        left_context_len,
        caches.val2,
    ) {
        Err(reason) => Err(reason),
        Ok(self2) => match added(m, mid, self2.rows) {
            Err(reason) => Err(reason),
            Ok(add18) => match convolution_values(
                m,
                layer.conv_module2,
                add18,
                frames,
                dim,
                caches.conv2,
                None,
            ) {
                Err(reason) => Err(reason),
                Ok(conv2) => match added(m, add18, conv2.rows) {
                    Err(reason) => Err(reason),
                    Ok(add23) => match feed_forward_rows(m, layer.feed_forward3, add23, frames, dim) {
                        Err(reason) => Err(reason),
                        Ok(ff3) => match added(m, add23, ff3) {
                            Err(reason) => Err(reason),
                            Ok(add24) => match normed(
                                m,
                                add24,
                                dim,
                                layer.norm_bias@,
                                layer.norm_log_scale@[0],
                            ) {
                                Err(reason) => Err(reason),
                                Ok(norm) => match bypassed(
                                    m,
                                    rows,
                                    norm,
                                    layer.bypass_scale@,
                                    frames,
                                    dim,
                                ) {
                                    Err(reason) => Err(reason),
                                    Ok(out) => Ok(
                                        BackValues {
                                            rows: out,
                                            val2: self2.cache,
                                            conv2: conv2.cache,
                                        },
                                    ),
                                },
                            },
                        },
                    },
                },
            },
        },
    }
}

/// The key padding mask of a chunk.
pub open spec fn key_mask(
    left_context_len: int,
    frames: int,
    valid_left_context_len: int,
) -> Seq<bool> {
    Seq::new(
        (left_context_len + frames) as nat,
        |i: int| is_masked(left_context_len, valid_left_context_len, i),
    )
}

/// What a layer gives, or why it fails.
pub open spec fn layer_values(
    m: FloatModel,
    layer: XasrEncoderLayerWeights,
    rows: Seq<u32>,
    frames: usize,
    dim: usize,
    num_heads: usize,
    query_head_dim: usize,
    left_context_len: usize,
    valid_left_context_len: usize,
    caches: LayerCaches,
) -> Result<LayerValues, Seq<char>> {
    if frame_rows_refusal(rows.len() as int, frames, dim, "zipformer layer input"@) is Some {
        Err(frame_rows_refusal(rows.len() as int, frames, dim, "zipformer layer input"@)->0)
    } else if mask_refusal(left_context_len, valid_left_context_len) is Some {
        Err(mask_refusal(left_context_len, valid_left_context_len)->0)
    } else {
        match attention_values(
            m,
            layer.self_attn_weights,
            rows,
            frames,
            dim,
            num_heads,
            query_head_dim,
            left_context_len,
            caches.key,
            Some(
                key_mask(left_context_len as int, frames as int, valid_left_context_len as int),
            ),
        ) {
            Err(reason) => Err(reason),
            Ok(attention) => match front_values(
                m,
                layer,
                rows,
                attention.weights,
                frames,
                dim,
                num_heads,
                left_context_len,
                caches,
            ) {
                Err(reason) => Err(reason),
                Ok(front) => match back_values(
                    m,
                    layer,
                    rows,
                    front.rows,
                    attention.weights,
                    frames,
                    dim,
                    num_heads,
                    left_context_len,
                    caches,
                ) {
                    Err(reason) => Err(reason),
                    Ok(back) => Ok(
                        LayerValues {
                            rows: back.rows,
                            key: attention.cached_key,
                            nonlin_attention: front.nonlin_attention,
                            val1: front.val1,
                            val2: back.val2,
                            conv1: front.conv1,
                            conv2: back.conv2,
                        },
                    ),
                },
            },
        }
    }
}

/// A layer can run on chunks of `frames` frames: the sizes of its parts can be
/// counted, and it holds the values that they read.
pub open spec fn layer_can_run(
    layer: XasrEncoderLayerWeights,
    frames: usize,
    dim: usize,
    num_heads: usize,
    query_head_dim: usize,
    left_context_len: usize,
) -> bool {
    &&& attention_can_run(
        layer.self_attn_weights,
        frames,
        dim,
        num_heads,
        query_head_dim,
        left_context_len,
    )
    &&& parts_can_run(layer, frames, dim, num_heads, left_context_len)
}

/// What follows the attention of a layer can run.
pub open spec fn parts_can_run(
    layer: XasrEncoderLayerWeights,
    frames: usize,
    dim: usize,
    num_heads: usize,
    left_context_len: usize,
) -> bool {
    &&& frames * dim <= usize::MAX
    &&& left_context_len + frames > 0
    &&& 3 * layer.nonlin_attention.out_proj.weight.input_dim <= usize::MAX
    &&& values_can_run(
        layer.nonlin_attention.out_proj.weight.input_dim,
        frames,
        dim,
        1,
        left_context_len,
    )
    &&& values_can_run(
        layer.self_attn1.in_proj.weight.output_dim,
        frames,
        dim,
        num_heads,
        left_context_len,
    )
    &&& values_can_run(
        layer.self_attn2.in_proj.weight.output_dim,
        frames,
        dim,
        num_heads,
        left_context_len,
    )
    &&& convolution_can_run(layer.conv_module1, frames, dim)
    &&& convolution_can_run(layer.conv_module2, frames, dim)
    &&& layer.norm_log_scale@.len() > 0
}

struct FrontOutput {
    rows: Vec<u32>,
    nonlin_attention: Vec<u32>,
    val1: Vec<u32>,
    conv1: Vec<u32>,
}

struct BackOutput {
    rows: Vec<u32>,
    val2: Vec<u32>,
    conv2: Vec<u32>,
}

/// Runs the first half of a layer.
#[verifier::spinoff_prover]
#[verifier::rlimit(60)]
fn run_front<O: FloatOps>(
    ops: &O,
    layer: &XasrEncoderLayerWeights,
    rows: &[u32],
    attention: &[u32],
    frames: usize,
    dim: usize,
    num_heads: usize,
    left_context_len: usize,
    caches: XasrZipformerLayerReferenceCaches<'_>,
) -> (result: Result<FrontOutput, String>)
    requires
        float_ops::sized(ops),
        dim > 0,
        num_heads > 0,
        rows@.len() == frames * dim,
        attention@.len() == num_heads * frames * (left_context_len + frames),
        parts_can_run(*layer, frames, dim, num_heads, left_context_len),
    ensures
        result is Ok ==> result->Ok_0.rows@.len() == frames * dim,
        float_ops::functional(ops) ==> match front_values(
            float_ops::model(ops),
            *layer,
            rows@,
            attention@,
            frames,
            dim,
            num_heads,
            left_context_len,
            caches.contents(),
        ) {
            Ok(values) => {
                &&& result is Ok
                &&& result->Ok_0.rows@ == values.rows
                &&& result->Ok_0.nonlin_attention@ == values.nonlin_attention
                &&& result->Ok_0.val1@ == values.val1
                &&& result->Ok_0.conv1@ == values.conv1
            },
            Err(reason) => result is Err && result->Err_0@ == reason,
        },
{
    let k_len = left_context_len + frames;
    proof {
        assert(1 * frames * k_len == frames * k_len) by (nonlinear_arith);
        assert(frames * k_len <= num_heads * frames * k_len) by (nonlinear_arith)
            requires
                1 <= num_heads,
                0 <= frames,
                0 <= k_len,
        ;
    }
    let first_head = vstd::slice::slice_subrange(attention, 0, frames * k_len);
    assert(first_head@ =~= attention@.take(frames * k_len));
    let ff1 = feed_forward_reference(ops, &layer.feed_forward1, rows, frames, dim)?;
    let add6 = add_frame_rows(ops, rows, ff1.as_slice())?;
    let nonlin = nonlin_attention_streaming_reference(
        ops,
        &layer.nonlin_attention,
        add6.as_slice(),
        first_head,
        frames,
        dim,
        1,
        left_context_len,
        caches.cached_nonlin_attention,
    )?;
    let add8 = add_frame_rows(ops, add6.as_slice(), nonlin.rows.as_slice())?;
    let self1 = self_attention_streaming_reference(
        ops,
        &layer.self_attn1,
        add8.as_slice(),
        attention,
        frames,
        dim,
        num_heads,
        left_context_len,
        caches.cached_val1,
    )?;
    let add10 = add_frame_rows(ops, add8.as_slice(), self1.rows.as_slice())?;
    let conv1 = convolution_module_streaming_reference(
        ops,
        &layer.conv_module1,
        add10.as_slice(),
        frames,
        dim,
        caches.cached_conv1,
        None,
    )?;
    let add15 = add_frame_rows(ops, add10.as_slice(), conv1.rows.as_slice())?;
    let ff2 = feed_forward_reference(ops, &layer.feed_forward2, add15.as_slice(), frames, dim)?;
    let add16 = add_frame_rows(ops, add15.as_slice(), ff2.as_slice())?;
    let mid = bypass_reference(
        ops,
        rows,
        add16.as_slice(),
        layer.bypass_mid_scale.as_slice(),
        frames,
        dim,
    )?;
    Ok(
        FrontOutput {
            rows: mid,
            nonlin_attention: nonlin.new_cache,
            val1: self1.new_cache,
            conv1: conv1.new_cache,
        },
    )
}

/// Runs the second half of a layer.
#[verifier::spinoff_prover]
#[verifier::rlimit(60)]
fn run_back<O: FloatOps>(
    ops: &O,
    layer: &XasrEncoderLayerWeights,
    rows: &[u32],
    mid: &[u32],
    attention: &[u32],
    frames: usize,
    dim: usize,
    num_heads: usize,
    left_context_len: usize,
    caches: XasrZipformerLayerReferenceCaches<'_>,
) -> (result: Result<BackOutput, String>)
    requires
        float_ops::sized(ops),
        dim > 0,
        num_heads > 0,
        rows@.len() == frames * dim,
        mid@.len() == frames * dim,
        attention@.len() == num_heads * frames * (left_context_len + frames),
        parts_can_run(*layer, frames, dim, num_heads, left_context_len),
    ensures
        result is Ok ==> result->Ok_0.rows@.len() == frames * dim,
        float_ops::functional(ops) ==> match back_values(
            float_ops::model(ops),
            *layer,
            rows@,
            mid@,
            attention@,
            frames,
            dim,
            num_heads,
            left_context_len,
            caches.contents(),
        ) {
            Ok(values) => {
                &&& result is Ok
                &&& result->Ok_0.rows@ == values.rows
                &&& result->Ok_0.val2@ == values.val2
                &&& result->Ok_0.conv2@ == values.conv2
            },
            Err(reason) => result is Err && result->Err_0@ == reason,
        },
{
    let self2 = self_attention_streaming_reference(
        ops,
        &layer.self_attn2,
        mid,
        attention,
        frames,
        dim,
        num_heads,
        left_context_len,
        caches.cached_val2,
    )?;
    let add18 = add_frame_rows(ops, mid, self2.rows.as_slice())?;
    let conv2 = convolution_module_streaming_reference(
        ops,
        &layer.conv_module2,
        add18.as_slice(),
        frames,
        dim,
        caches.cached_conv2,
        None,
    )?;
    let add23 = add_frame_rows(ops, add18.as_slice(), conv2.rows.as_slice())?;
    let ff3 = feed_forward_reference(ops, &layer.feed_forward3, add23.as_slice(), frames, dim)?;
    let add24 = add_frame_rows(ops, add23.as_slice(), ff3.as_slice())?;
    let norm = bias_norm_last_dim(
        ops,
        add24.as_slice(),
        dim,
        layer.norm_bias.as_slice(),
        layer.norm_log_scale[0],
    )?;
    let output = bypass_reference(
        ops,
        rows,
        norm.as_slice(),
        layer.bypass_scale.as_slice(),
        frames,
        dim,
    )?;
    Ok(BackOutput { rows: output, val2: self2.new_cache, conv2: conv2.new_cache })
}

/// Runs a layer on a chunk.
#[verifier::spinoff_prover]
#[verifier::rlimit(40)]
pub fn zipformer_layer_streaming_reference<O: FloatOps>(
    ops: &O,
    layer: &XasrEncoderLayerWeights,
    rows: &[u32],
    frames: usize,
    dim: usize,
    num_heads: usize,
    query_head_dim: usize,
    left_context_len: usize,
    valid_left_context_len: usize,
    caches: XasrZipformerLayerReferenceCaches<'_>,
) -> (result: Result<XasrZipformerLayerReferenceOutput, String>)
    requires
        float_ops::sized(ops),
        dim > 0 || rows@.len() > 0,
        layer_can_run(*layer, frames, dim, num_heads, query_head_dim, left_context_len),
    ensures
        frame_rows_refusal(rows@.len() as int, frames, dim, "zipformer layer input"@) is Some
            ==> text_outcome(
            result,
            frame_rows_refusal(rows@.len() as int, frames, dim, "zipformer layer input"@),
        ),
        result is Ok ==> result->Ok_0.rows@.len() == frames * dim,
        result is Ok ==> rows@.len() == frames * dim && valid_left_context_len <= left_context_len,
        float_ops::functional(ops) ==> match layer_values(
            float_ops::model(ops),
            *layer,
            rows@,
            frames,
            dim,
            num_heads,
            query_head_dim,
            left_context_len,
            valid_left_context_len,
            caches.contents(),
        ) {
            Ok(values) => result is Ok && result->Ok_0.values() == values,
            Err(reason) => result is Err && result->Err_0@ == reason,
        },
{
    match validate_frame_rows(rows, frames, dim, "zipformer layer input") {
        Ok(_) => {},
        Err(reason) => return Err(reason),
    }
    assert(dim > 0) by {
        assert(frames * 0 == 0) by (nonlinear_arith);
    }
    let key_padding_mask = streaming_key_padding_mask(
        left_context_len,
        frames,
        valid_left_context_len,
    )?;
    let attention = self_attention_weights_streaming_reference(
        ops,
        &layer.self_attn_weights,
        rows,
        frames,
        dim,
        num_heads,
        query_head_dim,
        left_context_len,
        caches.cached_key,
        Some(key_padding_mask.as_slice()),
    )?;
    let front = run_front(
        ops,
        layer,
        rows,
        attention.weights.as_slice(),
        frames,
        dim,
        num_heads,
        left_context_len,
        caches,
    )?;
    let back = run_back(
        ops,
        layer,
        rows,
        front.rows.as_slice(),
        attention.weights.as_slice(),
        frames,
        dim,
        num_heads,
        left_context_len,
        caches,
    )?;
    Ok(
        XasrZipformerLayerReferenceOutput {
            rows: back.rows,
            new_cached_key: attention.new_cached_key,
            new_cached_nonlin_attention: front.nonlin_attention,
            new_cached_val1: front.val1,
            new_cached_val2: back.val2,
            new_cached_conv1: front.conv1,
            new_cached_conv2: back.conv2,
        },
    )
}

} // verus!
