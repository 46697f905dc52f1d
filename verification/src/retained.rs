//! What the weights of an encoder keep in memory, item by item.

use vstd::prelude::*;
use vstd::string::StringExecFns;
use crate::encoder_weights::{
    NamedTensor, StoredLinear, XasrConv1dWeights, XasrConv2dWeights, XasrConvolutionModuleWeights,
    XasrEncoderEmbedWeights, XasrEncoderLayerWeights, XasrEncoderStackWeights, XasrEncoderWeights,
    XasrLinearPairWeights, XasrLinearWithBias,
};
use crate::text;

verus! {

/// What an item keeps.
#[derive(Debug, Clone, Copy, PartialEq, Eq, Structural)]
pub enum Holding {
    /// A list of floats.
    Floats { len: usize },
    /// A matrix, as floats, as stored bytes, or as both.
    Matrix { floats: usize, bytes: usize },
    /// A tensor: its floats and its dimensions.
    Tensor { floats: usize, dims: usize },
    /// A list of stacks.
    Stacks { len: usize },
    /// A list of layers.
    Layers { len: usize },
}

/// An item that is kept.
#[derive(Debug)]
pub struct Retained {
    pub label: String,
    pub holding: Holding,
}

/// Kept items by their labels.
pub type Entries = Seq<(Seq<char>, Holding)>;

/// Kept items by their labels.
pub open spec fn entries_of(items: Seq<Retained>) -> Entries {
    Seq::new(items.len(), |i: int| (items[i].label@, items[i].holding))
}

/// What a matrix keeps.
pub open spec fn matrix(weight: StoredLinear) -> Holding {
    Holding::Matrix {
        floats: weight.values@.len() as usize,
        bytes: if weight.native is Some {
            (weight.native->0).bytes@.len() as usize
        } else {
            0
        },
    }
}

/// What a tensor keeps.
pub open spec fn tensor(weight: NamedTensor) -> Holding {
    Holding::Tensor { floats: weight.values@.len() as usize, dims: weight.dims@.len() as usize }
}

/// What a list keeps.
pub open spec fn floats(values: Vec<u32>) -> Holding {
    Holding::Floats { len: values@.len() as usize }
}

/// The items of a matrix with a bias.
pub open spec fn linear_entries(linear: XasrLinearWithBias, label: Seq<char>) -> Entries {
    seq![
        (label + " weight"@, matrix(linear.weight)),
        (label + " bias"@, floats(linear.bias)),
    ]
}

/// The items of two matrices with biases.
pub open spec fn pair_entries(pair: XasrLinearPairWeights, label: Seq<char>) -> Entries {
    linear_entries(pair.in_proj, label + " input"@) + linear_entries(
        pair.out_proj,
        label + " output"@,
    )
}

/// The items of a kernel over time.
pub open spec fn conv1d_entries(conv: XasrConv1dWeights, label: Seq<char>) -> Entries {
    seq![
        (label + " weight"@, tensor(conv.weight)),
        (label + " bias"@, floats(conv.bias)),
    ]
}

/// The items of a kernel over planes.
pub open spec fn conv2d_entries(conv: XasrConv2dWeights, label: Seq<char>) -> Entries {
    seq![
        (label + " weight"@, tensor(conv.weight)),
        (label + " bias"@, floats(conv.bias)),
    ]
}

/// The items of a convolution module.
pub open spec fn module_entries(module: XasrConvolutionModuleWeights, label: Seq<char>) -> Entries {
    linear_entries(module.in_proj, label + " input"@) + conv1d_entries(
        module.depthwise_causal_conv,
        label + " causal"@,
    ) + conv1d_entries(module.depthwise_chunkwise_conv, label + " chunkwise"@) + seq![
        (label + " chunkwise scale"@, tensor(module.chunkwise_conv_scale)),
    ] + linear_entries(module.out_proj, label + " output"@)
}

/// The items of the embedding.
pub open spec fn embed_entries(embed: XasrEncoderEmbedWeights) -> Entries {
    conv2d_entries(embed.conv0, "xasr encoder embed conv0"@)
        + conv2d_entries(embed.conv4, "xasr encoder embed conv4"@)
        + conv2d_entries(embed.conv7, "xasr encoder embed conv7"@)
        + conv2d_entries(embed.convnext_depthwise, "xasr encoder embed convnext depthwise"@)
        + conv2d_entries(embed.convnext_pointwise1, "xasr encoder embed convnext pointwise1"@)
        + conv2d_entries(embed.convnext_pointwise2, "xasr encoder embed convnext pointwise2"@)
        + linear_entries(embed.out, "xasr encoder embed output"@)
        + seq![
            ("xasr encoder embed norm bias"@, floats(embed.out_norm_bias)),
            ("xasr encoder embed norm log scale"@, floats(embed.out_norm_log_scale)),
        ]
}

/// The items of a layer.
pub open spec fn layer_entries(layer: XasrEncoderLayerWeights) -> Entries {
    pair_entries(layer.feed_forward1, "xasr encoder feed forward1"@)
        + pair_entries(layer.feed_forward2, "xasr encoder feed forward2"@)
        + pair_entries(layer.feed_forward3, "xasr encoder feed forward3"@)
        + pair_entries(layer.self_attn1, "xasr encoder self attention1"@)
        + pair_entries(layer.self_attn2, "xasr encoder self attention2"@)
        + linear_entries(layer.self_attn_weights.in_proj, "xasr encoder attention qkv projection"@)
        + seq![
            (
                "xasr encoder attention position projection"@,
                matrix(layer.self_attn_weights.linear_pos),
            ),
        ]
        + linear_entries(layer.nonlin_attention.in_proj, "xasr encoder nonlinear attention input"@)
        + linear_entries(layer.nonlin_attention.out_proj, "xasr encoder nonlinear attention output"@)
        + module_entries(layer.conv_module1, "xasr encoder conv module1"@)
        + module_entries(layer.conv_module2, "xasr encoder conv module2"@)
        + seq![
            ("xasr encoder norm bias"@, floats(layer.norm_bias)),
            ("xasr encoder norm log scale"@, floats(layer.norm_log_scale)),
            ("xasr encoder bypass scale"@, floats(layer.bypass_scale)),
            ("xasr encoder mid bypass scale"@, floats(layer.bypass_mid_scale)),
        ]
}

/// The items of the first `n` layers.
pub open spec fn layers_entries(layers: Seq<XasrEncoderLayerWeights>, n: int) -> Entries
    decreases n,
{
    if n <= 0 {
        Seq::empty()
    } else {
        layers_entries(layers, n - 1) + layer_entries(layers[n - 1])
    }
}

/// The items of an optional list.
pub open spec fn optional_entries(values: Option<Vec<u32>>, label: Seq<char>) -> Entries {
    match values {
        Some(list) => seq![(label, floats(list))],
        None => Seq::empty(),
    }
}

/// The items of a stack.
pub open spec fn stack_entries(stack: XasrEncoderStackWeights) -> Entries {
    seq![
        (
            "xasr encoder layer descriptors"@,
            Holding::Layers { len: stack.layers@.len() as usize },
        ),
    ] + optional_entries(stack.downsample_bias, "xasr encoder stack downsample bias"@)
        + optional_entries(
        stack.out_combiner_bypass_scale,
        "xasr encoder stack combiner scale"@,
    ) + layers_entries(stack.layers@, stack.layers@.len() as int)
}

/// The items of the first `n` stacks.
pub open spec fn stacks_entries(stacks: Seq<XasrEncoderStackWeights>, n: int) -> Entries
    decreases n,
{
    if n <= 0 {
        Seq::empty()
    } else {
        stacks_entries(stacks, n - 1) + stack_entries(stacks[n - 1])
    }
}

/// The items of an encoder.
pub open spec fn encoder_entries(weights: XasrEncoderWeights) -> Entries {
    embed_entries(weights.embed) + seq![
        (
            "xasr encoder stack descriptors"@,
            Holding::Stacks { len: weights.stacks@.len() as usize },
        ),
    ] + stacks_entries(weights.stacks@, weights.stacks@.len() as int) + seq![
        ("xasr encoder output downsample bias"@, floats(weights.downsample_output_bias)),
    ]
}

fn joined_label(label: &str, rest: &str) -> (joined: String)
    ensures
        joined@ == label@ + rest@,
{
    let mut joined = text::copy_text(label);
    joined.append(rest);
    joined
}

fn add_item(items: &mut Vec<Retained>, label: String, holding: Holding)
    ensures
        entries_of(final(items)@) == entries_of(old(items)@) + seq![(label@, holding)],
{
    let ghost before = items@;
    items.push(Retained { label, holding });
    assert(entries_of(items@) =~= entries_of(before) + seq![(label@, holding)]);
}

fn add_floats(items: &mut Vec<Retained>, label: String, values: &Vec<u32>)
    ensures
        entries_of(final(items)@) == entries_of(old(items)@) + seq![(label@, floats(*values))],
{
    add_item(items, label, Holding::Floats { len: values.len() });
}

fn add_matrix(items: &mut Vec<Retained>, label: String, weight: &StoredLinear)
    ensures
        entries_of(final(items)@) == entries_of(old(items)@) + seq![(label@, matrix(*weight))],
{
    let bytes = match &weight.native {
        Some(native) => native.bytes.len(),
        None => 0,
    };
    add_item(items, label, Holding::Matrix { floats: weight.values.len(), bytes });
}

fn add_tensor(items: &mut Vec<Retained>, label: String, weight: &NamedTensor)
    ensures
        entries_of(final(items)@) == entries_of(old(items)@) + seq![(label@, tensor(*weight))],
{
    add_item(
        items,
        label,
        Holding::Tensor { floats: weight.values.len(), dims: weight.dims.len() },
    );
}

/// Adds the items of a matrix with a bias.
pub fn add_linear_with_bias_bytes(
    linear: &XasrLinearWithBias,
    items: &mut Vec<Retained>,
    label: &str,
)
    ensures
        entries_of(final(items)@) == entries_of(old(items)@) + linear_entries(*linear, label@),
{
    let ghost start = entries_of(items@);
    add_matrix(items, joined_label(label, " weight"), &linear.weight);
    add_floats(items, joined_label(label, " bias"), &linear.bias);
    assert(entries_of(items@) =~= start + linear_entries(*linear, label@));
}

/// Adds the items of two matrices with biases.
pub fn add_linear_pair_bytes(pair: &XasrLinearPairWeights, items: &mut Vec<Retained>, label: &str)
    ensures
        entries_of(final(items)@) == entries_of(old(items)@) + pair_entries(*pair, label@),
{
    let ghost start = entries_of(items@);
    let input = joined_label(label, " input");
    add_linear_with_bias_bytes(&pair.in_proj, items, input.as_str());
    let output = joined_label(label, " output");
    add_linear_with_bias_bytes(&pair.out_proj, items, output.as_str());
    assert(entries_of(items@) =~= start + pair_entries(*pair, label@));
}

/// Adds the items of a kernel over time.
pub fn add_conv1d_bytes(conv: &XasrConv1dWeights, items: &mut Vec<Retained>, label: &str)
    ensures
        entries_of(final(items)@) == entries_of(old(items)@) + conv1d_entries(*conv, label@),
{
    let ghost start = entries_of(items@);
    add_tensor(items, joined_label(label, " weight"), &conv.weight);
    add_floats(items, joined_label(label, " bias"), &conv.bias);
    assert(entries_of(items@) =~= start + conv1d_entries(*conv, label@));
}

/// Adds the items of a kernel over planes.
pub fn add_conv2d_bytes(conv: &XasrConv2dWeights, items: &mut Vec<Retained>, label: &str)
    ensures
        entries_of(final(items)@) == entries_of(old(items)@) + conv2d_entries(*conv, label@),
{
    let ghost start = entries_of(items@);
    add_tensor(items, joined_label(label, " weight"), &conv.weight);
    add_floats(items, joined_label(label, " bias"), &conv.bias);
    assert(entries_of(items@) =~= start + conv2d_entries(*conv, label@));
}

/// Adds the items of a convolution module.
pub fn add_convolution_module_bytes(
    module: &XasrConvolutionModuleWeights,
    items: &mut Vec<Retained>,
    label: &str,
)
    ensures
        entries_of(final(items)@) == entries_of(old(items)@) + module_entries(*module, label@),
{
    let ghost start = entries_of(items@);
    let input = joined_label(label, " input");
    add_linear_with_bias_bytes(&module.in_proj, items, input.as_str());
    let causal = joined_label(label, " causal");
    add_conv1d_bytes(&module.depthwise_causal_conv, items, causal.as_str());
    let chunkwise = joined_label(label, " chunkwise");
    add_conv1d_bytes(&module.depthwise_chunkwise_conv, items, chunkwise.as_str());
    add_tensor(
        items,
        joined_label(label, " chunkwise scale"),
        &module.chunkwise_conv_scale,
    );
    let output = joined_label(label, " output");
    add_linear_with_bias_bytes(&module.out_proj, items, output.as_str());
    assert(entries_of(items@) =~= start + module_entries(*module, label@));
}

/// Adds the items of the embedding.
pub fn add_embed_bytes(embed: &XasrEncoderEmbedWeights, items: &mut Vec<Retained>)
    ensures
        entries_of(final(items)@) == entries_of(old(items)@) + embed_entries(*embed),
{
    let ghost start = entries_of(items@);
    add_conv2d_bytes(&embed.conv0, items, "xasr encoder embed conv0");
    add_conv2d_bytes(&embed.conv4, items, "xasr encoder embed conv4");
    add_conv2d_bytes(&embed.conv7, items, "xasr encoder embed conv7");
    add_conv2d_bytes(&embed.convnext_depthwise, items, "xasr encoder embed convnext depthwise");
    add_conv2d_bytes(&embed.convnext_pointwise1, items, "xasr encoder embed convnext pointwise1");
    add_conv2d_bytes(&embed.convnext_pointwise2, items, "xasr encoder embed convnext pointwise2");
    add_linear_with_bias_bytes(&embed.out, items, "xasr encoder embed output");
    add_floats(items, text::copy_text("xasr encoder embed norm bias"), &embed.out_norm_bias);
    add_floats(
        items,
        text::copy_text("xasr encoder embed norm log scale"),
        &embed.out_norm_log_scale,
    );
    assert(entries_of(items@) =~= start + embed_entries(*embed));
}

/// Adds the items of a layer.
#[verifier::rlimit(40)]
pub fn add_layer_bytes(layer: &XasrEncoderLayerWeights, items: &mut Vec<Retained>)
    ensures
        entries_of(final(items)@) == entries_of(old(items)@) + layer_entries(*layer),
{
    let ghost start = entries_of(items@);
    add_linear_pair_bytes(&layer.feed_forward1, items, "xasr encoder feed forward1");
    add_linear_pair_bytes(&layer.feed_forward2, items, "xasr encoder feed forward2");
    add_linear_pair_bytes(&layer.feed_forward3, items, "xasr encoder feed forward3");
    add_linear_pair_bytes(&layer.self_attn1, items, "xasr encoder self attention1");
    add_linear_pair_bytes(&layer.self_attn2, items, "xasr encoder self attention2");
    add_linear_with_bias_bytes(
        &layer.self_attn_weights.in_proj,
        items,
        "xasr encoder attention qkv projection",
    );
    add_matrix(
        items,
        text::copy_text("xasr encoder attention position projection"),
        &layer.self_attn_weights.linear_pos,
    );
    add_linear_with_bias_bytes(
        &layer.nonlin_attention.in_proj,
        items,
        "xasr encoder nonlinear attention input",
    );
    add_linear_with_bias_bytes(
        &layer.nonlin_attention.out_proj,
        items,
        "xasr encoder nonlinear attention output",
    );
    add_convolution_module_bytes(&layer.conv_module1, items, "xasr encoder conv module1");
    add_convolution_module_bytes(&layer.conv_module2, items, "xasr encoder conv module2");
    add_floats(items, text::copy_text("xasr encoder norm bias"), &layer.norm_bias);
    add_floats(items, text::copy_text("xasr encoder norm log scale"), &layer.norm_log_scale);
    add_floats(items, text::copy_text("xasr encoder bypass scale"), &layer.bypass_scale);
    add_floats(items, text::copy_text("xasr encoder mid bypass scale"), &layer.bypass_mid_scale);
    assert(entries_of(items@) =~= start + layer_entries(*layer));
}

fn add_optional(items: &mut Vec<Retained>, label: &str, values: &Option<Vec<u32>>)
    ensures
        entries_of(final(items)@) == entries_of(old(items)@) + optional_entries(*values, label@),
{
    let ghost start = entries_of(items@);
    match values {
        Some(list) => {
            add_floats(items, text::copy_text(label), list);
        },
        None => {},
    }
    assert(entries_of(items@) =~= start + optional_entries(*values, label@));
}

fn add_stack_bytes(stack: &XasrEncoderStackWeights, items: &mut Vec<Retained>)
    ensures
        entries_of(final(items)@) == entries_of(old(items)@) + stack_entries(*stack),
{
    let ghost start = entries_of(items@);
    add_item(
        items,
        text::copy_text("xasr encoder layer descriptors"),
        Holding::Layers { len: stack.layers.len() },
    );
    add_optional(items, "xasr encoder stack downsample bias", &stack.downsample_bias);
    add_optional(items, "xasr encoder stack combiner scale", &stack.out_combiner_bypass_scale);
    let ghost before = entries_of(items@);
    let mut index: usize = 0;
    assert(before =~= before + layers_entries(stack.layers@, 0));
    while index < stack.layers.len()
        invariant
            index <= stack.layers@.len(),
            entries_of(items@) == before + layers_entries(stack.layers@, index as int),
        decreases stack.layers@.len() - index,
    {
        add_layer_bytes(&stack.layers[index], items);
        index = index + 1;
        assert(entries_of(items@) =~= before + layers_entries(stack.layers@, index as int));
    }
    assert(entries_of(items@) =~= start + stack_entries(*stack));
}

impl XasrEncoderWeights {
    /// All items that the weights keep.
    pub fn retained_items(&self) -> (items: Vec<Retained>)
        ensures
            entries_of(items@) == encoder_entries(*self),
    {
        let mut items: Vec<Retained> = Vec::new();
        add_embed_bytes(&self.embed, &mut items);
        add_item(
            &mut items,
            text::copy_text("xasr encoder stack descriptors"),
            Holding::Stacks { len: self.stacks.len() },
        );
        let ghost before = entries_of(items@);
        let mut index: usize = 0;
        assert(before =~= before + stacks_entries(self.stacks@, 0));
        while index < self.stacks.len()
            invariant
                index <= self.stacks@.len(),
                entries_of(items@) == before + stacks_entries(self.stacks@, index as int),
            decreases self.stacks@.len() - index,
        {
            add_stack_bytes(&self.stacks[index], &mut items);
            index = index + 1;
            assert(entries_of(items@) =~= before + stacks_entries(self.stacks@, index as int));
        }
        add_floats(
            &mut items,
            text::copy_text("xasr encoder output downsample bias"),
            &self.downsample_output_bias,
        );
        assert(entries_of(items@) =~= encoder_entries(*self));
        items
    }
}

} // verus!
