//! Every field of the loaded weights holds the tensors of its own name.

use vstd::prelude::*;
use crate::encoder_loading::{
    convolution_from, dynamic_linear_from, embed_from, layer_from, linear_from, pair_from,
    pinned_linear_from, prefix_of, stack_from, WeightSource, XasrWeightsError,
};
use crate::encoder_weights::{
    NamedTensor, StoredLinear, XasrConvolutionModuleWeights, XasrEncoderEmbedWeights,
    XasrEncoderLayerWeights, XasrEncoderStackWeights, XasrEncoderWeights, XasrLinearWithBias,
};
use crate::package_names::compacted;
use crate::runtime_contract::XasrZipformerExecutionMetadata;
use crate::text::decimal;

verus! {

/// What a pack holds under each name.
pub struct TensorStore {
    pub values: spec_fn(Seq<char>) -> Seq<u32>,
    pub dims: spec_fn(Seq<char>) -> Seq<usize>,
}

/// Whatever the source gives is what the store holds under the name that was asked for, has
/// that name where it has one, and has the dimensions that were asked for.
pub open spec fn answers<S: WeightSource>(source: &S, store: TensorStore) -> bool {
    &&& forall|name: &String, tensor: NamedTensor|
        #[trigger] call_ensures(
            S::load_named,
            (source, name),
            Ok::<NamedTensor, XasrWeightsError>(tensor),
        ) ==> store.is_named(name@, tensor)
    &&& forall|name: &String, len: usize, values: Vec<u32>|
        #[trigger] call_ensures(
            S::load_vector,
            (source, name, len),
            Ok::<Vec<u32>, XasrWeightsError>(values),
        ) ==> values@ == (store.values)(name@) && values@.len() == len
    &&& forall|name: &String, values: Vec<u32>|
        #[trigger] call_ensures(
            S::load_vector_from_contract,
            (source, name),
            Ok::<Vec<u32>, XasrWeightsError>(values),
        ) ==> values@ == (store.values)(name@)
    &&& forall|name: &String, input_dim: usize, output_dim: usize, matrix: StoredLinear|
        #[trigger] call_ensures(
            S::load_native_linear,
            (source, name, input_dim, output_dim),
            Ok::<StoredLinear, XasrWeightsError>(matrix),
        ) ==> store.is_matrix(name@, matrix) && matrix.input_dim == input_dim
            && matrix.output_dim == output_dim
    &&& forall|name: &String, matrix: StoredLinear|
        #[trigger] call_ensures(
            S::load_native_linear_from_contract,
            (source, name),
            Ok::<StoredLinear, XasrWeightsError>(matrix),
        ) ==> store.is_matrix(name@, matrix)
    &&& forall|name: &String, matrix: StoredLinear|
        #[trigger] call_ensures(
            S::load_native_linear_by_actual_dims,
            (source, name),
            Ok::<StoredLinear, XasrWeightsError>(matrix),
        ) ==> store.is_matrix(name@, matrix)
}

impl TensorStore {
    /// The tensor is the one of this name.
    pub open spec fn is_named(self, name: Seq<char>, tensor: NamedTensor) -> bool {
        &&& tensor.name@ == name
        &&& tensor.dims@ == (self.dims)(name)
        &&& tensor.values@ == (self.values)(name)
    }

    /// The matrix is the one of this name.
    pub open spec fn is_matrix(self, name: Seq<char>, matrix: StoredLinear) -> bool {
        &&& matrix.name@ == name
        &&& matrix.values@ == (self.values)(name)
    }

    /// The list is what the pack holds for a tensor of the model.
    pub open spec fn list(self, upstream: Seq<char>, values: Vec<u32>) -> bool {
        values@ == (self.values)(compacted(upstream))
    }

    /// The linear layer is that of the model: its matrix and its bias.
    pub open spec fn linear(self, upstream: Seq<char>, linear: XasrLinearWithBias) -> bool {
        &&& self.is_matrix(compacted(upstream + ".weight"@), linear.weight)
        &&& self.list(upstream + ".bias"@, linear.bias)
    }

    /// The kernel is that of the model, with its bias.
    pub open spec fn kernel(
        self,
        upstream: Seq<char>,
        weight: NamedTensor,
        bias: Vec<u32>,
    ) -> bool {
        &&& self.is_named(compacted(upstream + ".weight"@), weight)
        &&& self.list(upstream + ".bias"@, bias)
    }

    /// The convolution module is that of the model.
    pub open spec fn module(
        self,
        upstream: Seq<char>,
        module: XasrConvolutionModuleWeights,
    ) -> bool {
        let causal = module.depthwise_causal_conv;
        let chunkwise = module.depthwise_chunkwise_conv;
        &&& self.linear(upstream + ".in_proj"@, module.in_proj)
        &&& self.kernel(
            upstream + ".depthwise_conv.causal_conv"@,
            causal.weight,
            causal.bias,
        )
        &&& self.kernel(
            upstream + ".depthwise_conv.chunkwise_conv"@,
            chunkwise.weight,
            chunkwise.bias,
        )
        &&& self.is_named(
            compacted(upstream + ".depthwise_conv.chunkwise_conv_scale"@),
            module.chunkwise_conv_scale,
        )
        &&& self.linear(upstream + ".out_proj"@, module.out_proj)
    }

    /// The layer is that of the model: each part holds the tensors of its name.
    pub open spec fn layer(self, upstream: Seq<char>, layer: XasrEncoderLayerWeights) -> bool {
        let dot = upstream + "."@;
        &&& self.linear(dot + "feed_forward1"@ + ".in_proj"@, layer.feed_forward1.in_proj)
        &&& self.linear(dot + "feed_forward1"@ + ".out_proj"@, layer.feed_forward1.out_proj)
        &&& self.linear(dot + "feed_forward2"@ + ".in_proj"@, layer.feed_forward2.in_proj)
        &&& self.linear(dot + "feed_forward2"@ + ".out_proj"@, layer.feed_forward2.out_proj)
        &&& self.linear(dot + "feed_forward3"@ + ".in_proj"@, layer.feed_forward3.in_proj)
        &&& self.linear(dot + "feed_forward3"@ + ".out_proj"@, layer.feed_forward3.out_proj)
        &&& self.linear(
            upstream + ".self_attn_weights.in_proj"@,
            layer.self_attn_weights.in_proj,
        )
        &&& self.is_matrix(
            compacted(upstream + ".self_attn_weights.linear_pos.weight"@),
            layer.self_attn_weights.linear_pos,
        )
        &&& self.linear(dot + "self_attn1"@ + ".in_proj"@, layer.self_attn1.in_proj)
        &&& self.linear(dot + "self_attn1"@ + ".out_proj"@, layer.self_attn1.out_proj)
        &&& self.linear(dot + "self_attn2"@ + ".in_proj"@, layer.self_attn2.in_proj)
        &&& self.linear(dot + "self_attn2"@ + ".out_proj"@, layer.self_attn2.out_proj)
        &&& self.linear(
            upstream + ".nonlin_attention.in_proj"@,
            layer.nonlin_attention.in_proj,
        )
        &&& self.linear(
            upstream + ".nonlin_attention.out_proj"@,
            layer.nonlin_attention.out_proj,
        )
        &&& self.module(dot + "conv_module1"@, layer.conv_module1)
        &&& self.module(dot + "conv_module2"@, layer.conv_module2)
        &&& self.list(upstream + ".norm.bias"@, layer.norm_bias)
        &&& self.list(upstream + ".norm.log_scale"@, layer.norm_log_scale)
        &&& self.list(upstream + ".bypass.bypass_scale"@, layer.bypass_scale)
        &&& self.list(upstream + ".bypass_mid.bypass_scale"@, layer.bypass_mid_scale)
    }

    /// The embedding is that of the model.
    pub open spec fn embed(self, embed: XasrEncoderEmbedWeights) -> bool {
        let depthwise = embed.convnext_depthwise;
        let first = embed.convnext_pointwise1;
        let second = embed.convnext_pointwise2;
        &&& self.kernel("encoder_embed.conv.0"@, embed.conv0.weight, embed.conv0.bias)
        &&& self.kernel("encoder_embed.conv.4"@, embed.conv4.weight, embed.conv4.bias)
        &&& self.kernel("encoder_embed.conv.7"@, embed.conv7.weight, embed.conv7.bias)
        &&& self.kernel(
            "encoder_embed.convnext.depthwise_conv"@,
            depthwise.weight,
            depthwise.bias,
        )
        &&& self.kernel("encoder_embed.convnext.pointwise_conv1"@, first.weight, first.bias)
        &&& self.kernel("encoder_embed.convnext.pointwise_conv2"@, second.weight, second.bias)
        &&& self.linear("encoder_embed.out"@, embed.out)
        &&& self.list("encoder_embed.out_norm.bias"@, embed.out_norm_bias)
        &&& self.list("encoder_embed.out_norm.log_scale"@, embed.out_norm_log_scale)
    }

    /// The stack is that of the model: its layers, and behind the first stack what joins it to
    /// the rows before it.
    pub open spec fn stack(self, number: int, stack: XasrEncoderStackWeights) -> bool {
        let upstream = "encoder.encoders."@ + decimal(number as nat);
        let layers = if number == 0 {
            ".layers."@
        } else {
            ".encoder.layers."@
        };
        &&& forall|k: int|
            0 <= k < stack.layers@.len() ==> self.layer(
                upstream + layers + decimal(k as nat),
                #[trigger] stack.layers@[k],
            )
        &&& number > 0 ==> {
            &&& stack.downsample_bias is Some
            &&& self.list(upstream + ".downsample.bias"@, stack.downsample_bias->0)
            &&& stack.out_combiner_bypass_scale is Some
            &&& self.list(
                upstream + ".out_combiner.bypass_scale"@,
                stack.out_combiner_bypass_scale->0,
            )
        }
    }

    /// The weights are those of the model: every field, of every layer of every stack, holds
    /// the tensors that the pack has under the names of that field, layer and stack.
    pub open spec fn encoder(self, weights: XasrEncoderWeights) -> bool {
        &&& self.embed(weights.embed)
        &&& forall|s: int|
            0 <= s < weights.stacks@.len() ==> self.stack(s, #[trigger] weights.stacks@[s])
        &&& self.list("encoder.downsample_output.bias"@, weights.downsample_output_bias)
    }
}

proof fn lemma_linear<S: WeightSource>(
    source: &S,
    store: TensorStore,
    upstream: Seq<char>,
    input_dim: usize,
    output_dim: usize,
    linear: XasrLinearWithBias,
)
    requires
        answers(source, store),
        linear_from(source, upstream, input_dim, output_dim, linear),
    ensures
        store.linear(upstream, linear),
        linear.weight.input_dim == input_dim,
        linear.weight.output_dim == output_dim,
        linear.bias@.len() == output_dim,
{
}

proof fn lemma_pinned_linear<S: WeightSource>(
    source: &S,
    store: TensorStore,
    upstream: Seq<char>,
    linear: XasrLinearWithBias,
)
    requires
        answers(source, store),
        pinned_linear_from(source, upstream, linear),
    ensures
        store.linear(upstream, linear),
{
}

proof fn lemma_dynamic_linear<S: WeightSource>(
    source: &S,
    store: TensorStore,
    upstream: Seq<char>,
    input_dim: usize,
    linear: XasrLinearWithBias,
)
    requires
        answers(source, store),
        dynamic_linear_from(source, upstream, input_dim, linear),
    ensures
        store.linear(upstream, linear),
        linear.weight.input_dim == input_dim,
        linear.weight.output_dim == linear.bias@.len() as usize,
{
}

proof fn lemma_module<S: WeightSource>(
    source: &S,
    store: TensorStore,
    upstream: Seq<char>,
    module: XasrConvolutionModuleWeights,
)
    requires
        answers(source, store),
        convolution_from(source, upstream, module),
    ensures
        store.module(upstream, module),
{
    lemma_pinned_linear(source, store, upstream + ".in_proj"@, module.in_proj);
    lemma_pinned_linear(source, store, upstream + ".out_proj"@, module.out_proj);
}

/// A layer that was loaded is that of the model, and its projections lead from the width of
/// the rows and back to it.
pub proof fn law_a_loaded_layer_holds_its_own_tensors<S: WeightSource>(
    source: &S,
    store: TensorStore,
    upstream: Seq<char>,
    num_heads: usize,
    query_head_dim: usize,
    dim: usize,
    layer: XasrEncoderLayerWeights,
)
    requires
        answers(source, store),
        layer_from(source, upstream, num_heads, query_head_dim, dim, layer),
    ensures
        store.layer(upstream, layer),
        layer.feed_forward1.in_proj.weight.input_dim == dim,
        layer.feed_forward1.out_proj.weight.output_dim == dim,
        layer.feed_forward2.in_proj.weight.input_dim == dim,
        layer.feed_forward2.out_proj.weight.output_dim == dim,
        layer.feed_forward3.in_proj.weight.input_dim == dim,
        layer.feed_forward3.out_proj.weight.output_dim == dim,
        layer.self_attn1.in_proj.weight.input_dim == dim,
        layer.self_attn1.out_proj.weight.output_dim == dim,
        layer.self_attn1.out_proj.weight.input_dim == layer.self_attn1.in_proj.weight.output_dim,
        layer.self_attn2.in_proj.weight.input_dim == dim,
        layer.self_attn2.out_proj.weight.output_dim == dim,
        layer.self_attn2.out_proj.weight.input_dim == layer.self_attn2.in_proj.weight.output_dim,
        layer.nonlin_attention.in_proj.weight.input_dim == dim,
        layer.nonlin_attention.out_proj.weight.output_dim == dim,
        layer.nonlin_attention.out_proj.weight.input_dim
            == layer.nonlin_attention.in_proj.weight.output_dim / 3,
        layer.self_attn_weights.in_proj.weight.input_dim == dim,
        layer.self_attn_weights.in_proj.weight.output_dim == 2 * (num_heads * query_head_dim)
            + layer.self_attn_weights.linear_pos.output_dim,
{
    let dot = upstream + "."@;
    let pairs = seq![
        ("feed_forward1"@, layer.feed_forward1),
        ("feed_forward2"@, layer.feed_forward2),
        ("feed_forward3"@, layer.feed_forward3),
        ("self_attn1"@, layer.self_attn1),
        ("self_attn2"@, layer.self_attn2),
    ];
    assert forall|i: int| 0 <= i < 5 implies ({
        let name = dot + (#[trigger] pairs[i]).0;
        let pair = pairs[i].1;
        &&& store.linear(name + ".in_proj"@, pair.in_proj)
        &&& store.linear(name + ".out_proj"@, pair.out_proj)
        &&& pair.in_proj.weight.input_dim == dim
        &&& pair.out_proj.weight.input_dim == pair.in_proj.weight.output_dim
        &&& pair.out_proj.weight.output_dim == dim
    }) by {
        let name = dot + pairs[i].0;
        let pair = pairs[i].1;
        assert(pair_from(source, name, dim, pair));
        lemma_dynamic_linear(source, store, name + ".in_proj"@, dim, pair.in_proj);
        lemma_linear(
            source,
            store,
            name + ".out_proj"@,
            pair.in_proj.weight.output_dim,
            dim,
            pair.out_proj,
        );
    }
    assert(pairs[0].1 == layer.feed_forward1 && pairs[1].1 == layer.feed_forward2 && pairs[2].1
        == layer.feed_forward3 && pairs[3].1 == layer.self_attn1 && pairs[4].1
        == layer.self_attn2);
    let attention = layer.self_attn_weights;
    lemma_linear(
        source,
        store,
        upstream + ".self_attn_weights.in_proj"@,
        dim,
        (num_heads * query_head_dim * 2 + attention.linear_pos.output_dim) as usize,
        attention.in_proj,
    );
    let nonlin = layer.nonlin_attention;
    lemma_dynamic_linear(
        source,
        store,
        upstream + ".nonlin_attention.in_proj"@,
        dim,
        nonlin.in_proj,
    );
    lemma_linear(
        source,
        store,
        upstream + ".nonlin_attention.out_proj"@,
        nonlin.in_proj.weight.output_dim / 3,
        dim,
        nonlin.out_proj,
    );
    lemma_module(source, store, dot + "conv_module1"@, layer.conv_module1);
    lemma_module(source, store, dot + "conv_module2"@, layer.conv_module2);
    assert(num_heads * query_head_dim * 2 == 2 * (num_heads * query_head_dim)) by (nonlinear_arith);
}

/// An embedding that was loaded is that of the model.
pub proof fn law_a_loaded_embedding_holds_its_own_tensors<S: WeightSource>(
    source: &S,
    store: TensorStore,
    embed: XasrEncoderEmbedWeights,
)
    requires
        answers(source, store),
        embed_from(source, embed),
    ensures
        store.embed(embed),
{
    lemma_pinned_linear(source, store, "encoder_embed.out"@, embed.out);
}

/// A stack that was loaded is that of the model, with the width, the factor and as many
/// layers as the metadata says for it.
pub proof fn law_a_loaded_stack_holds_its_own_tensors<S: WeightSource>(
    source: &S,
    store: TensorStore,
    metadata: XasrZipformerExecutionMetadata,
    number: int,
    stack: XasrEncoderStackWeights,
)
    requires
        answers(source, store),
        0 <= number,
        stack_from(source, metadata, number, stack),
    ensures
        store.stack(number, stack),
        stack.stack == number,
        stack.dim == metadata.encoder_dims@[number],
        stack.downsampling_factor == metadata.downsampling_factors@[number],
        stack.layers@.len() == metadata.num_encoder_layers@[number],
{
    let upstream = "encoder.encoders."@ + decimal(number as nat);
    let layers = if number == 0 {
        ".layers."@
    } else {
        ".encoder.layers."@
    };
    assert forall|k: int| 0 <= k < stack.layers@.len() implies store.layer(
        upstream + layers + decimal(k as nat),
        #[trigger] stack.layers@[k],
    ) by {
        law_a_loaded_layer_holds_its_own_tensors(
            source,
            store,
            prefix_of(number as nat, k as nat),
            metadata.num_heads@[number],
            metadata.query_head_dims@[number],
            metadata.encoder_dims@[number],
            stack.layers@[k],
        );
        assert(prefix_of(number as nat, k as nat) == upstream + layers + decimal(k as nat));
    }
}

} // verus!
