//! How a layer is put together.

use vstd::prelude::*;
use crate::encoder_weights::XasrEncoderLayerWeights;
use crate::float_ops::FloatModel;
use crate::reference_attention::{attention_values, AttentionValues};
use crate::reference_conv_module::{convolution_values, ConvolutionValues};
use crate::reference_layer::{key_mask, layer_values, LayerCaches};
use crate::reference_rows::{bypassed, feed_forward_rows, normed};
use crate::reference_values::{nonlin_values, self_attention_values, ProjectedValues};

verus! {

/// The sizes of a layer.
pub struct LayerSizes {
    pub frames: usize,
    pub dim: usize,
    pub heads: usize,
    pub head_dim: usize,
    pub left: usize,
    /// How much of the left context holds anything.
    pub filled: usize,
}

/// What a layer passes through, from its input to its output.
pub struct LayerStages {
    pub attention: AttentionValues,
    pub forward1: Seq<u32>,
    pub nonlin: ProjectedValues,
    pub self1: ProjectedValues,
    pub conv1: ConvolutionValues,
    pub forward2: Seq<u32>,
    pub middle: Seq<u32>,
    pub self2: ProjectedValues,
    pub conv2: ConvolutionValues,
    pub forward3: Seq<u32>,
    pub norm: Seq<u32>,
}

/// Rows with what a part made of them added to them.
pub open spec fn plus(m: FloatModel, rows: Seq<u32>, part: Seq<u32>) -> Seq<u32> {
    Seq::new(rows.len(), |i: int| (m.add)(rows[i], part[i]))
}

impl LayerStages {
    /// The rows after each part of the first half.
    pub open spec fn front(self, m: FloatModel, rows: Seq<u32>, parts: int) -> Seq<u32>
        decreases parts,
    {
        if parts <= 0 {
            rows
        } else {
            let part = if parts == 1 {
                self.forward1
            } else if parts == 2 {
                self.nonlin.rows
            } else if parts == 3 {
                self.self1.rows
            } else if parts == 4 {
                self.conv1.rows
            } else {
                self.forward2
            };
            plus(m, self.front(m, rows, parts - 1), part)
        }
    }

    /// The rows after each part of the second half.
    pub open spec fn back(self, m: FloatModel, parts: int) -> Seq<u32>
        decreases parts,
    {
        if parts <= 0 {
            self.middle
        } else {
            let part = if parts == 1 {
                self.self2.rows
            } else if parts == 2 {
                self.conv2.rows
            } else {
                self.forward3
            };
            plus(m, self.back(m, parts - 1), part)
        }
    }

    /// The attention of the layer, in which the keys that hold nothing are hidden.
    pub open spec fn attends(
        self,
        m: FloatModel,
        layer: XasrEncoderLayerWeights,
        rows: Seq<u32>,
        sizes: LayerSizes,
        caches: LayerCaches,
    ) -> bool {
        let hidden = Seq::new(
            (sizes.left + sizes.frames) as nat,
            |key: int| key + sizes.filled < sizes.left,
        );
        attention_values(
            m,
            layer.self_attn_weights,
            rows,
            sizes.frames,
            sizes.dim,
            sizes.heads,
            sizes.head_dim,
            sizes.left,
            caches.key,
            Some(hidden),
        ) == Ok::<AttentionValues, Seq<char>>(self.attention)
    }

    /// The parts of the first half, each on the rows that the one before left.
    pub open spec fn first_half(
        self,
        m: FloatModel,
        layer: XasrEncoderLayerWeights,
        rows: Seq<u32>,
        sizes: LayerSizes,
        caches: LayerCaches,
    ) -> bool {
        let first_head = self.attention.weights.take(sizes.frames * (sizes.left + sizes.frames));
        &&& feed_forward_rows(
            m,
            layer.feed_forward1,
            self.front(m, rows, 0),
            sizes.frames,
            sizes.dim,
        ) == Ok::<Seq<u32>, Seq<char>>(self.forward1)
        &&& nonlin_values(
            m,
            layer.nonlin_attention,
            self.front(m, rows, 1),
            first_head,
            sizes.frames,
            sizes.dim,
            1,
            sizes.left,
            caches.nonlin_attention,
        ) == Ok::<ProjectedValues, Seq<char>>(self.nonlin)
        &&& self_attention_values(
            m,
            layer.self_attn1,
            self.front(m, rows, 2),
            self.attention.weights,
            sizes.frames,
            sizes.dim,
            sizes.heads,
            sizes.left,
            caches.val1,
        ) == Ok::<ProjectedValues, Seq<char>>(self.self1)
        &&& convolution_values(
            m,
            layer.conv_module1,
            self.front(m, rows, 3),
            sizes.frames,
            sizes.dim,
            caches.conv1,
            None,
        ) == Ok::<ConvolutionValues, Seq<char>>(self.conv1)
        &&& feed_forward_rows(
            m,
            layer.feed_forward2,
            self.front(m, rows, 4),
            sizes.frames,
            sizes.dim,
        ) == Ok::<Seq<u32>, Seq<char>>(self.forward2)
        &&& bypassed(
            m,
            rows,
            self.front(m, rows, 5),
            layer.bypass_mid_scale@,
            sizes.frames,
            sizes.dim,
        ) == Ok::<Seq<u32>, Seq<char>>(self.middle)
    }

    /// The parts of the second half, each on the rows that the one before left.
    pub open spec fn second_half(
        self,
        m: FloatModel,
        layer: XasrEncoderLayerWeights,
        sizes: LayerSizes,
        caches: LayerCaches,
    ) -> bool {
        &&& self_attention_values(
            m,
            layer.self_attn2,
            self.back(m, 0),
            self.attention.weights,
            sizes.frames,
            sizes.dim,
            sizes.heads,
            sizes.left,
            caches.val2,
        ) == Ok::<ProjectedValues, Seq<char>>(self.self2)
        &&& convolution_values(
            m,
            layer.conv_module2,
            self.back(m, 1),
            sizes.frames,
            sizes.dim,
            caches.conv2,
            None,
        ) == Ok::<ConvolutionValues, Seq<char>>(self.conv2)
        &&& feed_forward_rows(
            m,
            layer.feed_forward3,
            self.back(m, 2),
            sizes.frames,
            sizes.dim,
        ) == Ok::<Seq<u32>, Seq<char>>(self.forward3)
        &&& normed(
            m,
            self.back(m, 3),
            sizes.dim,
            layer.norm_bias@,
            layer.norm_log_scale@[0],
        ) == Ok::<Seq<u32>, Seq<char>>(self.norm)
    }
}

/// A layer adds to its rows what each of its parts makes of them, one part after the other.
/// After the first half, and again at the end, a bypass leads from the rows of the layer to
/// what has become of them.  Every part remembers what it hands on by itself.
#[verifier::spinoff_prover]
pub proof fn law_a_layer_adds_part_after_part(
    m: FloatModel,
    layer: XasrEncoderLayerWeights,
    rows: Seq<u32>,
    sizes: LayerSizes,
    caches: LayerCaches,
) -> (stages: LayerStages)
    requires
        layer_values(
            m,
            layer,
            rows,
            sizes.frames,
            sizes.dim,
            sizes.heads,
            sizes.head_dim,
            sizes.left,
            sizes.filled,
            caches,
        ) is Ok,
    ensures
        ({
            let result = layer_values(
                m,
                layer,
                rows,
                sizes.frames,
                sizes.dim,
                sizes.heads,
                sizes.head_dim,
                sizes.left,
                sizes.filled,
                caches,
            )->Ok_0;
            &&& rows.len() == sizes.frames * sizes.dim
            &&& sizes.filled <= sizes.left
            &&& stages.attends(m, layer, rows, sizes, caches)
            &&& stages.first_half(m, layer, rows, sizes, caches)
            &&& stages.second_half(m, layer, sizes, caches)
            &&& bypassed(
                m,
                rows,
                stages.norm,
                layer.bypass_scale@,
                sizes.frames,
                sizes.dim,
            ) == Ok::<Seq<u32>, Seq<char>>(result.rows)
            &&& result.key == stages.attention.cached_key
            &&& result.nonlin_attention == stages.nonlin.cache
            &&& result.val1 == stages.self1.cache
            &&& result.val2 == stages.self2.cache
            &&& result.conv1 == stages.conv1.cache
            &&& result.conv2 == stages.conv2.cache
        }),
{
    let frames = sizes.frames;
    let dim = sizes.dim;
    let left = sizes.left;
    let hidden = Seq::new(
        (sizes.left + sizes.frames) as nat,
        |key: int| key + sizes.filled < sizes.left,
    );
    assert(hidden =~= key_mask(left as int, frames as int, sizes.filled as int));
    let attention = attention_values(
        m,
        layer.self_attn_weights,
        rows,
        frames,
        dim,
        sizes.heads,
        sizes.head_dim,
        left,
        caches.key,
        Some(hidden),
    )->Ok_0;
    let forward1 = feed_forward_rows(m, layer.feed_forward1, rows, frames, dim)->Ok_0;
    let after1 = plus(m, rows, forward1);
    let nonlin = nonlin_values(
        m,
        layer.nonlin_attention,
        after1,
        attention.weights.take(frames * (left + frames)),
        frames,
        dim,
        1,
        left,
        caches.nonlin_attention,
    )->Ok_0;
    let after2 = plus(m, after1, nonlin.rows);
    let self1 = self_attention_values(
        m,
        layer.self_attn1,
        after2,
        attention.weights,
        frames,
        dim,
        sizes.heads,
        left,
        caches.val1,
    )->Ok_0;
    let after3 = plus(m, after2, self1.rows);
    let conv1 = convolution_values(
        m,
        layer.conv_module1,
        after3,
        frames,
        dim,
        caches.conv1,
        None,
    )->Ok_0;
    let after4 = plus(m, after3, conv1.rows);
    let forward2 = feed_forward_rows(m, layer.feed_forward2, after4, frames, dim)->Ok_0;
    let after5 = plus(m, after4, forward2);
    let middle = bypassed(m, rows, after5, layer.bypass_mid_scale@, frames, dim)->Ok_0;
    let self2 = self_attention_values(
        m,
        layer.self_attn2,
        middle,
        attention.weights,
        frames,
        dim,
        sizes.heads,
        left,
        caches.val2,
    )->Ok_0;
    let later1 = plus(m, middle, self2.rows);
    let conv2 = convolution_values(
        m,
        layer.conv_module2,
        later1,
        frames,
        dim,
        caches.conv2,
        None,
    )->Ok_0;
    let later2 = plus(m, later1, conv2.rows);
    let forward3 = feed_forward_rows(m, layer.feed_forward3, later2, frames, dim)->Ok_0;
    let later3 = plus(m, later2, forward3);
    let norm = normed(m, later3, dim, layer.norm_bias@, layer.norm_log_scale@[0])->Ok_0;
    let stages = LayerStages {
        attention,
        forward1,
        nonlin,
        self1,
        conv1,
        forward2,
        middle,
        self2,
        conv2,
        forward3,
        norm,
    };
    reveal_with_fuel(LayerStages::front, 6);
    reveal_with_fuel(LayerStages::back, 4);
    stages
}

} // verus!
