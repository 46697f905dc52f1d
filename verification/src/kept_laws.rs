//! What the weights keep in memory, counted.

use vstd::prelude::*;
use crate::encoder_weights::{
    NamedTensor, StoredLinear, XasrConv1dWeights, XasrConv2dWeights, XasrConvolutionModuleWeights,
    XasrEncoderEmbedWeights, XasrEncoderLayerWeights, XasrEncoderStackWeights, XasrEncoderWeights,
    XasrLinearPairWeights, XasrLinearWithBias,
};
use crate::retained::{
    conv1d_entries, conv2d_entries, embed_entries, encoder_entries, layer_entries, layers_entries,
    linear_entries, module_entries, optional_entries, pair_entries, stack_entries, stacks_entries,
    Entries, Holding,
};
use crate::runtime_contract::total;

verus! {

/// How many values an item holds: floats, bytes, dimensions or parts.
pub open spec fn held(holding: Holding) -> int {
    match holding {
        Holding::Floats { len } => len as int,
        Holding::Matrix { floats, bytes } => floats + bytes,
        Holding::Tensor { floats, dims } => floats + dims,
        Holding::Stacks { len } => len as int,
        Holding::Layers { len } => len as int,
    }
}

/// How many values the items hold together.
pub open spec fn held_by_all(entries: Entries) -> int
    decreases entries.len(),
{
    if entries.len() == 0 {
        0
    } else {
        held_by_all(entries.drop_last()) + held(entries.last().1)
    }
}

proof fn lemma_held_together(a: Entries, b: Entries)
    ensures
        held_by_all(a + b) == held_by_all(a) + held_by_all(b),
    decreases b.len(),
{
    if b.len() == 0 {
        assert(a + b =~= a);
    } else {
        lemma_held_together(a, b.drop_last());
        assert((a + b).drop_last() =~= a + b.drop_last());
    }
}

proof fn lemma_held_by_one(label: Seq<char>, holding: Holding)
    ensures
        held_by_all(seq![(label, holding)]) == held(holding),
{
    let one = seq![(label, holding)];
    assert(one.drop_last() =~= Seq::empty());
    reveal_with_fuel(held_by_all, 2);
}

/// The values of a matrix: its floats, and its bytes where it is stored otherwise.
pub open spec fn matrix_values(weight: StoredLinear) -> int {
    weight.values.len() + if weight.native is Some {
        (weight.native->0).bytes.len() as int
    } else {
        0
    }
}

/// The values and dimensions of a tensor.
pub open spec fn tensor_values(weight: NamedTensor) -> int {
    weight.values.len() + weight.dims.len()
}

/// The values of a matrix with a bias.
pub open spec fn linear_values(linear: XasrLinearWithBias) -> int {
    matrix_values(linear.weight) + linear.bias.len()
}

/// The values of two matrices with biases.
pub open spec fn pair_values(pair: XasrLinearPairWeights) -> int {
    linear_values(pair.in_proj) + linear_values(pair.out_proj)
}

/// The values of a kernel over time.
pub open spec fn kernel_values(conv: XasrConv1dWeights) -> int {
    tensor_values(conv.weight) + conv.bias.len()
}

/// The values of a kernel over planes.
pub open spec fn plane_kernel_values(conv: XasrConv2dWeights) -> int {
    tensor_values(conv.weight) + conv.bias.len()
}

/// The values of a convolution module.
pub open spec fn module_values(module: XasrConvolutionModuleWeights) -> int {
    linear_values(module.in_proj) + linear_values(module.out_proj) + kernel_values(
        module.depthwise_causal_conv,
    ) + kernel_values(module.depthwise_chunkwise_conv) + tensor_values(module.chunkwise_conv_scale)
}

/// The values of the embedding.
pub open spec fn embed_values(embed: XasrEncoderEmbedWeights) -> int {
    plane_kernel_values(embed.conv0) + plane_kernel_values(embed.conv4) + plane_kernel_values(
        embed.conv7,
    ) + plane_kernel_values(embed.convnext_depthwise) + plane_kernel_values(
        embed.convnext_pointwise1,
    ) + plane_kernel_values(embed.convnext_pointwise2) + linear_values(embed.out)
        + embed.out_norm_bias.len() + embed.out_norm_log_scale.len()
}

/// The values of a layer.
pub open spec fn layer_values_kept(layer: XasrEncoderLayerWeights) -> int {
    linear_values(layer.self_attn_weights.in_proj) + matrix_values(
        layer.self_attn_weights.linear_pos,
    ) + pair_values(layer.feed_forward1) + pair_values(layer.feed_forward2) + pair_values(
        layer.feed_forward3,
    ) + linear_values(layer.nonlin_attention.in_proj) + linear_values(
        layer.nonlin_attention.out_proj,
    ) + pair_values(layer.self_attn1) + pair_values(layer.self_attn2) + module_values(
        layer.conv_module1,
    ) + module_values(layer.conv_module2) + layer.norm_bias.len() + layer.norm_log_scale.len()
        + layer.bypass_scale.len() + layer.bypass_mid_scale.len()
}

/// The values of a list, where there is one.
pub open spec fn list_values(list: Option<Vec<u32>>) -> int {
    if list is Some {
        (list->0).len() as int
    } else {
        0
    }
}

/// The values of a stack, and the number of its layers.
pub open spec fn stack_values(stack: XasrEncoderStackWeights) -> int {
    stack.layers.len() + list_values(stack.downsample_bias) + list_values(
        stack.out_combiner_bypass_scale,
    ) + stack.layers@.map_values(|layer: XasrEncoderLayerWeights| layer_values_kept(layer)).fold_left(
        0int,
        |sum: int, one: int| sum + one,
    )
}

/// The values of an encoder, and the number of its stacks.
pub open spec fn encoder_values(weights: XasrEncoderWeights) -> int {
    embed_values(weights.embed) + weights.stacks.len() + weights.stacks@.map_values(
        |stack: XasrEncoderStackWeights| stack_values(stack),
    ).fold_left(0int, |sum: int, one: int| sum + one) + weights.downsample_output_bias.len()
}

proof fn lemma_linear(linear: XasrLinearWithBias, label: Seq<char>)
    ensures
        held_by_all(linear_entries(linear, label)) == linear_values(linear),
{
    let entries = linear_entries(linear, label);
    assert(entries.drop_last() =~= seq![entries[0]]);
    lemma_held_by_one(entries[0].0, entries[0].1);
}

proof fn lemma_pair(pair: XasrLinearPairWeights, label: Seq<char>)
    ensures
        held_by_all(pair_entries(pair, label)) == pair_values(pair),
{
    let a = linear_entries(pair.in_proj, label + " input"@);
    let b = linear_entries(pair.out_proj, label + " output"@);
    lemma_linear(pair.in_proj, label + " input"@);
    lemma_linear(pair.out_proj, label + " output"@);
    lemma_held_together(a, b);
}

proof fn lemma_kernel(conv: XasrConv1dWeights, label: Seq<char>)
    ensures
        held_by_all(conv1d_entries(conv, label)) == kernel_values(conv),
{
    let entries = conv1d_entries(conv, label);
    assert(entries.drop_last() =~= seq![entries[0]]);
    lemma_held_by_one(entries[0].0, entries[0].1);
}

proof fn lemma_plane_kernel(conv: XasrConv2dWeights, label: Seq<char>)
    ensures
        held_by_all(conv2d_entries(conv, label)) == plane_kernel_values(conv),
{
    let entries = conv2d_entries(conv, label);
    assert(entries.drop_last() =~= seq![entries[0]]);
    lemma_held_by_one(entries[0].0, entries[0].1);
}

/// The items of a convolution module hold every value of it once.
pub proof fn law_a_module_is_counted_once(module: XasrConvolutionModuleWeights, label: Seq<char>)
    ensures
        held_by_all(module_entries(module, label)) == module_values(module),
{
    let scale = module_entries(module, label)[6];
    let a = linear_entries(module.in_proj, label + " input"@);
    let b = conv1d_entries(module.depthwise_causal_conv, label + " causal"@);
    let c = conv1d_entries(module.depthwise_chunkwise_conv, label + " chunkwise"@);
    let d = seq![scale];
    let e = linear_entries(module.out_proj, label + " output"@);
    lemma_linear(module.in_proj, label + " input"@);
    lemma_kernel(module.depthwise_causal_conv, label + " causal"@);
    lemma_kernel(module.depthwise_chunkwise_conv, label + " chunkwise"@);
    lemma_held_by_one(scale.0, scale.1);
    lemma_linear(module.out_proj, label + " output"@);
    lemma_held_together(a, b);
    lemma_held_together(a + b, c);
    lemma_held_together(a + b + c, d);
    lemma_held_together(a + b + c + d, e);
    assert(module_entries(module, label) =~= a + b + c + d + e);
}

/// The items of the embedding hold every value of it once.
#[verifier::spinoff_prover]
pub proof fn law_an_embedding_is_counted_once(embed: XasrEncoderEmbedWeights)
    ensures
        held_by_all(embed_entries(embed)) == embed_values(embed),
{
    let a = conv2d_entries(embed.conv0, "xasr encoder embed conv0"@);
    let b = conv2d_entries(embed.conv4, "xasr encoder embed conv4"@);
    let c = conv2d_entries(embed.conv7, "xasr encoder embed conv7"@);
    let d = conv2d_entries(embed.convnext_depthwise, "xasr encoder embed convnext depthwise"@);
    let e = conv2d_entries(embed.convnext_pointwise1, "xasr encoder embed convnext pointwise1"@);
    let f = conv2d_entries(embed.convnext_pointwise2, "xasr encoder embed convnext pointwise2"@);
    let g = linear_entries(embed.out, "xasr encoder embed output"@);
    let all = embed_entries(embed);
    let h = all.skip(14);
    lemma_plane_kernel(embed.conv0, "xasr encoder embed conv0"@);
    lemma_plane_kernel(embed.conv4, "xasr encoder embed conv4"@);
    lemma_plane_kernel(embed.conv7, "xasr encoder embed conv7"@);
    lemma_plane_kernel(embed.convnext_depthwise, "xasr encoder embed convnext depthwise"@);
    lemma_plane_kernel(embed.convnext_pointwise1, "xasr encoder embed convnext pointwise1"@);
    lemma_plane_kernel(embed.convnext_pointwise2, "xasr encoder embed convnext pointwise2"@);
    lemma_linear(embed.out, "xasr encoder embed output"@);
    assert(h.drop_last() =~= seq![h[0]]);
    lemma_held_by_one(h[0].0, h[0].1);
    lemma_held_together(a, b);
    lemma_held_together(a + b, c);
    lemma_held_together(a + b + c, d);
    lemma_held_together(a + b + c + d, e);
    lemma_held_together(a + b + c + d + e, f);
    lemma_held_together(a + b + c + d + e + f, g);
    lemma_held_together(a + b + c + d + e + f + g, h);
    assert(all =~= a + b + c + d + e + f + g + h);
}

/// The items of a layer hold every value of it once.
#[verifier::spinoff_prover]
#[verifier::rlimit(30)]
pub proof fn law_a_layer_is_counted_once(layer: XasrEncoderLayerWeights)
    ensures
        held_by_all(layer_entries(layer)) == layer_values_kept(layer),
{
    let a = pair_entries(layer.feed_forward1, "xasr encoder feed forward1"@);
    let b = pair_entries(layer.feed_forward2, "xasr encoder feed forward2"@);
    let c = pair_entries(layer.feed_forward3, "xasr encoder feed forward3"@);
    let d = pair_entries(layer.self_attn1, "xasr encoder self attention1"@);
    let e = pair_entries(layer.self_attn2, "xasr encoder self attention2"@);
    let f = linear_entries(
        layer.self_attn_weights.in_proj,
        "xasr encoder attention qkv projection"@,
    );
    let all = layer_entries(layer);
    let g = seq![all[22]];
    let h = linear_entries(
        layer.nonlin_attention.in_proj,
        "xasr encoder nonlinear attention input"@,
    );
    let i = linear_entries(
        layer.nonlin_attention.out_proj,
        "xasr encoder nonlinear attention output"@,
    );
    let j = module_entries(layer.conv_module1, "xasr encoder conv module1"@);
    let k = module_entries(layer.conv_module2, "xasr encoder conv module2"@);
    let l = all.skip(45);
    lemma_pair(layer.feed_forward1, "xasr encoder feed forward1"@);
    lemma_pair(layer.feed_forward2, "xasr encoder feed forward2"@);
    lemma_pair(layer.feed_forward3, "xasr encoder feed forward3"@);
    lemma_pair(layer.self_attn1, "xasr encoder self attention1"@);
    lemma_pair(layer.self_attn2, "xasr encoder self attention2"@);
    lemma_linear(layer.self_attn_weights.in_proj, "xasr encoder attention qkv projection"@);
    lemma_linear(layer.nonlin_attention.in_proj, "xasr encoder nonlinear attention input"@);
    lemma_linear(layer.nonlin_attention.out_proj, "xasr encoder nonlinear attention output"@);
    law_a_module_is_counted_once(layer.conv_module1, "xasr encoder conv module1"@);
    law_a_module_is_counted_once(layer.conv_module2, "xasr encoder conv module2"@);
    lemma_held_by_one(all[22].0, all[22].1);
    lemma_held_by_one(l[0].0, l[0].1);
    assert(l.len() == 4);
    assert(l.drop_last().drop_last().drop_last() =~= seq![l[0]]);
    assert(held_by_all(l.drop_last().drop_last()) == held(l[0].1) + held(l[1].1));
    assert(held_by_all(l.drop_last()) == held(l[0].1) + held(l[1].1) + held(l[2].1));
    lemma_held_together(a, b);
    lemma_held_together(a + b, c);
    lemma_held_together(a + b + c, d);
    lemma_held_together(a + b + c + d, e);
    lemma_held_together(a + b + c + d + e, f);
    lemma_held_together(a + b + c + d + e + f, g);
    lemma_held_together(a + b + c + d + e + f + g, h);
    lemma_held_together(a + b + c + d + e + f + g + h, i);
    lemma_held_together(a + b + c + d + e + f + g + h + i, j);
    lemma_held_together(a + b + c + d + e + f + g + h + i + j, k);
    lemma_held_together(a + b + c + d + e + f + g + h + i + j + k, l);
    assert(all =~= a + b + c + d + e + f + g + h + i + j + k + l);
}

proof fn lemma_layers(layers: Seq<XasrEncoderLayerWeights>, n: int)
    requires
        0 <= n <= layers.len(),
    ensures
        held_by_all(layers_entries(layers, n)) == layers.take(n).map_values(
            |layer: XasrEncoderLayerWeights| layer_values_kept(layer),
        ).fold_left(0int, |sum: int, one: int| sum + one),
    decreases n,
{
    let counts = layers.take(n).map_values(
        |layer: XasrEncoderLayerWeights| layer_values_kept(layer),
    );
    if n > 0 {
        lemma_layers(layers, n - 1);
        law_a_layer_is_counted_once(layers[n - 1]);
        lemma_held_together(layers_entries(layers, n - 1), layer_entries(layers[n - 1]));
        assert(counts.drop_last() =~= layers.take(n - 1).map_values(
            |layer: XasrEncoderLayerWeights| layer_values_kept(layer),
        ));
    }
}

proof fn lemma_list(list: Option<Vec<u32>>, label: Seq<char>)
    ensures
        held_by_all(optional_entries(list, label)) == list_values(list),
{
    if list is Some {
        let entries = optional_entries(list, label);
        lemma_held_by_one(entries[0].0, entries[0].1);
        assert(entries =~= seq![entries[0]]);
    }
}

/// The items of a stack hold every value of it once.
pub proof fn law_a_stack_is_counted_once(stack: XasrEncoderStackWeights)
    ensures
        held_by_all(stack_entries(stack)) == stack_values(stack),
{
    let first = stack_entries(stack)[0];
    let a = seq![first];
    let b = optional_entries(stack.downsample_bias, "xasr encoder stack downsample bias"@);
    let c = optional_entries(
        stack.out_combiner_bypass_scale,
        "xasr encoder stack combiner scale"@,
    );
    let n = stack.layers@.len() as int;
    let d = layers_entries(stack.layers@, n);
    assert(stack.layers@.take(n) =~= stack.layers@);
    assert(stack.layers.len() == stack.layers@.len());
    lemma_layers(stack.layers@, n);
    lemma_held_by_one(first.0, first.1);
    lemma_list(stack.downsample_bias, "xasr encoder stack downsample bias"@);
    lemma_list(stack.out_combiner_bypass_scale, "xasr encoder stack combiner scale"@);
    lemma_held_together(a, b);
    lemma_held_together(a + b, c);
    lemma_held_together(a + b + c, d);
    assert(stack_entries(stack) =~= a + b + c + d);
}

proof fn lemma_stacks(stacks: Seq<XasrEncoderStackWeights>, n: int)
    requires
        0 <= n <= stacks.len(),
    ensures
        held_by_all(stacks_entries(stacks, n)) == stacks.take(n).map_values(
            |stack: XasrEncoderStackWeights| stack_values(stack),
        ).fold_left(0int, |sum: int, one: int| sum + one),
    decreases n,
{
    let counts = stacks.take(n).map_values(|stack: XasrEncoderStackWeights| stack_values(stack));
    if n > 0 {
        lemma_stacks(stacks, n - 1);
        law_a_stack_is_counted_once(stacks[n - 1]);
        lemma_held_together(stacks_entries(stacks, n - 1), stack_entries(stacks[n - 1]));
        assert(counts.drop_last() =~= stacks.take(n - 1).map_values(
            |stack: XasrEncoderStackWeights| stack_values(stack),
        ));
    }
}

/// The items of an encoder hold every value of its weights once, and count its stacks and
/// layers.
pub proof fn law_an_encoder_is_counted_once(weights: XasrEncoderWeights)
    ensures
        held_by_all(encoder_entries(weights)) == encoder_values(weights),
{
    let all = encoder_entries(weights);
    let n = weights.stacks@.len() as int;
    let a = embed_entries(weights.embed);
    let b = seq![all[a.len() as int]];
    let c = stacks_entries(weights.stacks@, n);
    let d = seq![all.last()];
    assert(weights.stacks@.take(n) =~= weights.stacks@);
    assert(weights.stacks.len() == weights.stacks@.len());
    law_an_embedding_is_counted_once(weights.embed);
    lemma_held_by_one(b[0].0, b[0].1);
    lemma_stacks(weights.stacks@, n);
    lemma_held_by_one(d[0].0, d[0].1);
    lemma_held_together(a, b);
    lemma_held_together(a + b, c);
    lemma_held_together(a + b + c, d);
    assert(all =~= a + b + c + d);
}

/// The layers of some stacks and of some more are, counted together, the layers of both.
pub proof fn law_layers_are_counted_stack_by_stack(some: Seq<usize>, more: Seq<usize>, one: usize)
    ensures
        total(some + more) == total(some) + total(more),
        total(seq![one]) == one,
    decreases more.len(),
{
    reveal_with_fuel(total, 2);
    assert(seq![one].drop_last() =~= Seq::<usize>::empty());
    if more.len() == 0 {
        assert(some + more =~= some);
    } else {
        law_layers_are_counted_stack_by_stack(some, more.drop_last(), one);
        assert((some + more).drop_last() =~= some + more.drop_last());
    }
}

} // verus!
