//! Loading the weights of the encoder by name.

use vstd::prelude::*;
use vstd::string::StringExecFns;
use crate::encoder_weights::{
    NamedTensor, StoredLinear, XasrConv1dWeights, XasrConv2dWeights, XasrConvolutionModuleWeights,
    XasrEncoderEmbedWeights, XasrEncoderLayerWeights, XasrEncoderStackWeights, XasrEncoderWeights,
    XasrLinearPairWeights, XasrLinearWithBias, XasrNonlinAttentionWeights,
    XasrSelfAttentionWeightsWeights,
};
use crate::loading_laws::{
    answers, law_a_loaded_embedding_holds_its_own_tensors,
    law_a_loaded_stack_holds_its_own_tensors, TensorStore,
};
use crate::package_names::{compact_xasr_name, compacted};
use crate::runtime_contract::XasrZipformerExecutionMetadata;
use crate::text;
use crate::text::{bracketed, decimal};

verus! {

/// Why weights could not be loaded.
#[derive(Debug)]
pub enum XasrWeightsError {
    /// A tensor does not have the dimensions that it should.
    Dims { name: String, dims: Vec<usize>, expected: Vec<usize> },
    /// A dimension that a tensor should have cannot be represented.
    ExpectationOverflow { reason: String },
    /// The pack does not give the tensor.
    Source { reason: String },
}

impl XasrWeightsError {
    /// The failure in words.
    pub fn message(&self) -> (message: String)
        ensures
            message@ == (match *self {
                XasrWeightsError::Dims { name, dims, expected } => "xasr tensor '"@ + name@
                    + "' has dims "@ + bracketed(dims@) + ", expected "@ + bracketed(expected@),
                XasrWeightsError::ExpectationOverflow { reason } => reason@,
                XasrWeightsError::Source { reason } => reason@,
            }),
    {
        match self {
            XasrWeightsError::Dims { name, dims, expected } => {
                let mut message = text::copy_text("xasr tensor '");
                message.append(name.as_str());
                message.append("' has dims ");
                text::push_bracketed(&mut message, dims.as_slice());
                message.append(", expected ");
                text::push_bracketed(&mut message, expected.as_slice());
                message
            },
            XasrWeightsError::ExpectationOverflow { reason } => text::copy_text(reason.as_str()),
            XasrWeightsError::Source { reason } => text::copy_text(reason.as_str()),
        }
    }
}

/// A pack, asked for tensors by the names under which it holds them.
pub trait WeightSource {
    /// A tensor of the dimensions that the model asks for.
    fn load_named(&self, name: &String) -> Result<NamedTensor, XasrWeightsError>;

    /// A list of this length.
    fn load_vector(&self, name: &String, len: usize) -> Result<Vec<u32>, XasrWeightsError>;

    /// A list of the length that the model asks for.
    fn load_vector_from_contract(&self, name: &String) -> Result<Vec<u32>, XasrWeightsError>;

    /// A matrix of these dimensions.
    fn load_native_linear(&self, name: &String, input_dim: usize, output_dim: usize) -> Result<
        StoredLinear,
        XasrWeightsError,
    >;

    /// A matrix of the dimensions that the model asks for.
    fn load_native_linear_from_contract(&self, name: &String) -> Result<
        StoredLinear,
        XasrWeightsError,
    >;

    /// A matrix of the dimensions that it has.
    fn load_native_linear_by_actual_dims(&self, name: &String) -> Result<
        StoredLinear,
        XasrWeightsError,
    >;
}

/// The source gives this tensor under the compacted name.
pub open spec fn gives_named<S: WeightSource>(
    source: &S,
    name: Seq<char>,
    tensor: NamedTensor,
) -> bool {
    exists|asked: &String|
        asked@ == compacted(name) && #[trigger] call_ensures(
            S::load_named,
            (source, asked),
            Ok::<NamedTensor, XasrWeightsError>(tensor),
        )
}

/// The source gives this list of the length under the compacted name.
pub open spec fn gives_vector<S: WeightSource>(
    source: &S,
    name: Seq<char>,
    len: usize,
    values: Vec<u32>,
) -> bool {
    exists|asked: &String|
        asked@ == compacted(name) && #[trigger] call_ensures(
            S::load_vector,
            (source, asked, len),
            Ok::<Vec<u32>, XasrWeightsError>(values),
        )
}

/// The source gives this list under the compacted name.
pub open spec fn gives_list<S: WeightSource>(
    source: &S,
    name: Seq<char>,
    values: Vec<u32>,
) -> bool {
    exists|asked: &String|
        asked@ == compacted(name) && #[trigger] call_ensures(
            S::load_vector_from_contract,
            (source, asked),
            Ok::<Vec<u32>, XasrWeightsError>(values),
        )
}

/// The source gives this matrix of the dimensions under the compacted name.
pub open spec fn gives_linear<S: WeightSource>(
    source: &S,
    name: Seq<char>,
    input_dim: usize,
    output_dim: usize,
    weight: StoredLinear,
) -> bool {
    exists|asked: &String|
        asked@ == compacted(name) && #[trigger] call_ensures(
            S::load_native_linear,
            (source, asked, input_dim, output_dim),
            Ok::<StoredLinear, XasrWeightsError>(weight),
        )
}

/// The source gives this matrix under the compacted name.
pub open spec fn gives_pinned_linear<S: WeightSource>(
    source: &S,
    name: Seq<char>,
    weight: StoredLinear,
) -> bool {
    exists|asked: &String|
        asked@ == compacted(name) && #[trigger] call_ensures(
            S::load_native_linear_from_contract,
            (source, asked),
            Ok::<StoredLinear, XasrWeightsError>(weight),
        )
}

/// The source gives this matrix, whatever its dimensions, under the compacted name.
pub open spec fn gives_any_linear<S: WeightSource>(
    source: &S,
    name: Seq<char>,
    weight: StoredLinear,
) -> bool {
    exists|asked: &String|
        asked@ == compacted(name) && #[trigger] call_ensures(
            S::load_native_linear_by_actual_dims,
            (source, asked),
            Ok::<StoredLinear, XasrWeightsError>(weight),
        )
}

/// The source refuses the tensor of this name with this error.
pub open spec fn refuses_named<S: WeightSource>(
    source: &S,
    name: Seq<char>,
    error: XasrWeightsError,
) -> bool {
    exists|asked: &String|
        asked@ == compacted(name) && #[trigger] call_ensures(
            S::load_named,
            (source, asked),
            Err::<NamedTensor, XasrWeightsError>(error),
        )
}

/// The source refuses the list of this name and length with this error.
pub open spec fn refuses_vector<S: WeightSource>(
    source: &S,
    name: Seq<char>,
    len: usize,
    error: XasrWeightsError,
) -> bool {
    exists|asked: &String|
        asked@ == compacted(name) && #[trigger] call_ensures(
            S::load_vector,
            (source, asked, len),
            Err::<Vec<u32>, XasrWeightsError>(error),
        )
}

/// The source refuses the list of this name with this error.
pub open spec fn refuses_list<S: WeightSource>(
    source: &S,
    name: Seq<char>,
    error: XasrWeightsError,
) -> bool {
    exists|asked: &String|
        asked@ == compacted(name) && #[trigger] call_ensures(
            S::load_vector_from_contract,
            (source, asked),
            Err::<Vec<u32>, XasrWeightsError>(error),
        )
}

/// The source refuses the matrix of this name and these dimensions with this error.
pub open spec fn refuses_linear<S: WeightSource>(
    source: &S,
    name: Seq<char>,
    input_dim: usize,
    output_dim: usize,
    error: XasrWeightsError,
) -> bool {
    exists|asked: &String|
        asked@ == compacted(name) && #[trigger] call_ensures(
            S::load_native_linear,
            (source, asked, input_dim, output_dim),
            Err::<StoredLinear, XasrWeightsError>(error),
        )
}

/// The source refuses the matrix of this name with this error.
pub open spec fn refuses_pinned_linear<S: WeightSource>(
    source: &S,
    name: Seq<char>,
    error: XasrWeightsError,
) -> bool {
    exists|asked: &String|
        asked@ == compacted(name) && #[trigger] call_ensures(
            S::load_native_linear_from_contract,
            (source, asked),
            Err::<StoredLinear, XasrWeightsError>(error),
        )
}

/// The source refuses the matrix of this name, whatever its dimensions, with this error.
pub open spec fn refuses_any_linear<S: WeightSource>(
    source: &S,
    name: Seq<char>,
    error: XasrWeightsError,
) -> bool {
    exists|asked: &String|
        asked@ == compacted(name) && #[trigger] call_ensures(
            S::load_native_linear_by_actual_dims,
            (source, asked),
            Err::<StoredLinear, XasrWeightsError>(error),
        )
}

/// The bias that the source gives under the name is no list, and `error` says so.
pub open spec fn bias_refused<S: WeightSource>(
    source: &S,
    name: Seq<char>,
    error: XasrWeightsError,
) -> bool {
    exists|bias: NamedTensor|
        #[trigger] gives_named(source, name, bias) && bias.dims@ != seq![
            bias.values@.len() as usize,
        ] && (error matches XasrWeightsError::Dims { name, dims, expected } && name@ == bias.name@
            && dims@ == bias.dims@ && expected@ == seq![bias.values@.len() as usize])
}

/// The width of the attention projection: queries, keys and positions.
pub open spec fn attention_width(num_heads: usize, query_head_dim: usize, pos_dim: usize) -> int {
    num_heads * query_head_dim * 2 + pos_dim
}

fn named(prefix: &str, suffix: &str) -> (name: String)
    ensures
        name@ == prefix@ + suffix@,
{
    let mut name = text::copy_text(prefix);
    name.append(suffix);
    name
}

fn copy_dims(dims: &[usize]) -> (copy: Vec<usize>)
    ensures
        copy@ == dims@,
{
    let mut copy: Vec<usize> = Vec::new();
    let mut i: usize = 0;
    while i < dims.len()
        invariant
            i <= dims@.len(),
            copy@ == dims@.take(i as int),
        decreases dims@.len() - i,
    {
        copy.push(dims[i]);
        assert(dims@.take(i + 1) =~= dims@.take(i as int).push(dims@[i as int]));
        i = i + 1;
    }
    assert(dims@.take(i as int) =~= dims@);
    copy
}

/// Checks the dimensions of a tensor.
pub fn ensure_dims(tensor: &NamedTensor, expected_dims: &[usize]) -> (result: Result<
    (),
    XasrWeightsError,
>)
    ensures
        result is Ok <==> tensor.dims@ == expected_dims@,
        result is Err ==> (result->Err_0 matches XasrWeightsError::Dims { name, dims, expected }
            && name@ == tensor.name@ && dims@ == tensor.dims@ && expected@ == expected_dims@),
{
    let mut same = tensor.dims.len() == expected_dims.len();
    let mut i: usize = 0;
    while same && i < expected_dims.len()
        invariant
            i <= expected_dims@.len(),
            same ==> tensor.dims@.len() == expected_dims@.len(),
            same ==> forall|j: int| 0 <= j < i ==> tensor.dims@[j] == expected_dims@[j],
            !same ==> tensor.dims@ != expected_dims@,
        decreases expected_dims@.len() - i,
    {
        if tensor.dims[i] != expected_dims[i] {
            same = false;
        }
        i = i + 1;
    }
    if same {
        assert(tensor.dims@ =~= expected_dims@);
        return Ok(());
    }
    Err(
        XasrWeightsError::Dims {
            name: text::copy_text(tensor.name.as_str()),
            dims: copy_dims(tensor.dims.as_slice()),
            expected: copy_dims(expected_dims),
        },
    )
}

fn named_tensor<S: WeightSource>(source: &S, name: String) -> (result: Result<
    NamedTensor,
    XasrWeightsError,
>)
    ensures
        match result {
            Ok(tensor) => gives_named(source, name@, tensor),
            Err(error) => refuses_named(source, name@, error),
        },
{
    let asked = compact_xasr_name(name.as_str());
    let result = source.load_named(&asked);
    assert(call_ensures(S::load_named, (source, &asked), result));
    result
}

fn list<S: WeightSource>(source: &S, name: String) -> (result: Result<Vec<u32>, XasrWeightsError>)
    ensures
        match result {
            Ok(values) => gives_list(source, name@, values),
            Err(error) => refuses_list(source, name@, error),
        },
{
    let asked = compact_xasr_name(name.as_str());
    let result = source.load_vector_from_contract(&asked);
    assert(call_ensures(S::load_vector_from_contract, (source, &asked), result));
    result
}

fn vector<S: WeightSource>(source: &S, name: String, len: usize) -> (result: Result<
    Vec<u32>,
    XasrWeightsError,
>)
    ensures
        match result {
            Ok(values) => gives_vector(source, name@, len, values),
            Err(error) => refuses_vector(source, name@, len, error),
        },
{
    let asked = compact_xasr_name(name.as_str());
    let result = source.load_vector(&asked, len);
    assert(call_ensures(S::load_vector, (source, &asked, len), result));
    result
}

fn linear<S: WeightSource>(
    source: &S,
    name: String,
    input_dim: usize,
    output_dim: usize,
) -> (result: Result<StoredLinear, XasrWeightsError>)
    ensures
        match result {
            Ok(weight) => gives_linear(source, name@, input_dim, output_dim, weight),
            Err(error) => refuses_linear(source, name@, input_dim, output_dim, error),
        },
{
    let asked = compact_xasr_name(name.as_str());
    let result = source.load_native_linear(&asked, input_dim, output_dim);
    assert(call_ensures(
        S::load_native_linear,
        (source, &asked, input_dim, output_dim),
        result,
    ));
    result
}

fn pinned_linear<S: WeightSource>(source: &S, name: String) -> (result: Result<
    StoredLinear,
    XasrWeightsError,
>)
    ensures
        match result {
            Ok(weight) => gives_pinned_linear(source, name@, weight),
            Err(error) => refuses_pinned_linear(source, name@, error),
        },
{
    let asked = compact_xasr_name(name.as_str());
    let result = source.load_native_linear_from_contract(&asked);
    assert(call_ensures(S::load_native_linear_from_contract, (source, &asked), result));
    result
}

fn any_linear<S: WeightSource>(source: &S, name: String) -> (result: Result<
    StoredLinear,
    XasrWeightsError,
>)
    ensures
        match result {
            Ok(weight) => gives_any_linear(source, name@, weight),
            Err(error) => refuses_any_linear(source, name@, error),
        },
{
    let asked = compact_xasr_name(name.as_str());
    let result = source.load_native_linear_by_actual_dims(&asked);
    assert(call_ensures(S::load_native_linear_by_actual_dims, (source, &asked), result));
    result
}

/// The prefix of the names of a layer.
pub open spec fn prefix_of(stack: nat, layer: nat) -> Seq<char> {
    if stack == 0 {
        "encoder.encoders."@ + decimal(stack) + ".layers."@ + decimal(layer)
    } else {
        "encoder.encoders."@ + decimal(stack) + ".encoder.layers."@ + decimal(layer)
    }
}

/// The prefix of the names of a layer.
pub fn layer_prefix(stack: usize, layer: usize) -> (prefix: String)
    ensures
        prefix@ == prefix_of(stack as nat, layer as nat),
{
    let mut prefix = text::copy_text("encoder.encoders.");
    text::push_number(&mut prefix, stack);
    if stack == 0 {
        prefix.append(".layers.");
    } else {
        prefix.append(".encoder.layers.");
    }
    text::push_number(&mut prefix, layer);
    prefix
}

/// A number that a dot follows can be read off.
pub proof fn lemma_number_before_dot(a: nat, b: nat, rest_a: Seq<char>, rest_b: Seq<char>)
    requires
        rest_a.len() > 0,
        rest_b.len() > 0,
        rest_a[0] == '.',
        rest_b[0] == '.',
        decimal(a) + rest_a == decimal(b) + rest_b,
    ensures
        a == b,
        rest_a == rest_b,
{
    let whole = decimal(a) + rest_a;
    let la = decimal(a).len() as int;
    let lb = decimal(b).len() as int;
    assert(whole[la] == '.');
    assert((decimal(b) + rest_b)[lb] == '.');
    if la < lb {
        text::lemma_decimal_digits(b, la);
        assert((decimal(b) + rest_b)[la] == decimal(b)[la]);
    } else if lb < la {
        text::lemma_decimal_digits(a, lb);
        assert(whole[lb] == decimal(a)[lb]);
    }
    assert(decimal(a) =~= whole.take(la));
    assert(decimal(b) =~= (decimal(b) + rest_b).take(lb));
    text::law_decimal_is_injective(a, b);
    assert(rest_a =~= whole.skip(la));
    assert(rest_b =~= (decimal(b) + rest_b).skip(lb));
}

/// What follows the stack number in the prefix of a layer.
spec fn prefix_rest(stack: nat, layer: nat) -> Seq<char> {
    if stack == 0 {
        ".layers."@ + decimal(layer)
    } else {
        ".encoder.layers."@ + decimal(layer)
    }
}

/// No two layers share a prefix.
pub proof fn law_layer_prefixes_differ(stack_a: nat, layer_a: nat, stack_b: nat, layer_b: nat)
    requires
        prefix_of(stack_a, layer_a) == prefix_of(stack_b, layer_b),
    ensures
        stack_a == stack_b,
        layer_a == layer_b,
{
    reveal_strlit(".layers.");
    reveal_strlit(".encoder.layers.");
    let head = "encoder.encoders."@;
    let rest_a = prefix_rest(stack_a, layer_a);
    let rest_b = prefix_rest(stack_b, layer_b);
    let tail_a = decimal(stack_a) + rest_a;
    let tail_b = decimal(stack_b) + rest_b;
    assert(prefix_of(stack_a, layer_a) =~= head + tail_a);
    assert(prefix_of(stack_b, layer_b) =~= head + tail_b);
    assert(tail_a =~= (head + tail_a).skip(head.len() as int));
    assert(tail_b =~= (head + tail_b).skip(head.len() as int));
    lemma_number_before_dot(stack_a, stack_b, rest_a, rest_b);
    let middle = if stack_a == 0 {
        ".layers."@
    } else {
        ".encoder.layers."@
    };
    assert(decimal(layer_a) =~= rest_a.skip(middle.len() as int));
    assert(decimal(layer_b) =~= rest_b.skip(middle.len() as int));
    text::law_decimal_is_injective(layer_a, layer_b);
}

/// A matrix of the dimensions and its bias, under the prefix.
pub open spec fn linear_from<S: WeightSource>(
    source: &S,
    prefix: Seq<char>,
    input_dim: usize,
    output_dim: usize,
    loaded: XasrLinearWithBias,
) -> bool {
    &&& gives_linear(source, prefix + ".weight"@, input_dim, output_dim, loaded.weight)
    &&& gives_vector(source, prefix + ".bias"@, output_dim, loaded.bias)
}

/// The source gives a list.
pub open spec fn list_given<S: WeightSource>(source: &S, name: Seq<char>) -> bool {
    exists|values: Vec<u32>| #[trigger] gives_list(source, name, values)
}

/// The source gives a tensor with its dimensions.
pub open spec fn named_given<S: WeightSource>(source: &S, name: Seq<char>) -> bool {
    exists|tensor: NamedTensor| #[trigger] gives_named(source, name, tensor)
}

/// Why a matrix of the dimensions or its bias is not loaded.
pub open spec fn linear_failed<S: WeightSource>(
    source: &S,
    prefix: Seq<char>,
    input_dim: usize,
    output_dim: usize,
    error: XasrWeightsError,
) -> bool {
    ||| refuses_linear(source, prefix + ".weight"@, input_dim, output_dim, error)
    ||| (exists|weight: StoredLinear|
        #[trigger] gives_linear(source, prefix + ".weight"@, input_dim, output_dim, weight))
        && refuses_vector(source, prefix + ".bias"@, output_dim, error)
}

/// Loads a matrix of the dimensions and its bias.
pub fn load_linear_with_bias<S: WeightSource>(
    source: &S,
    prefix: &str,
    input_dim: usize,
    output_dim: usize,
) -> (result: Result<XasrLinearWithBias, XasrWeightsError>)
    ensures
        match result {
            Ok(loaded) => linear_from(source, prefix@, input_dim, output_dim, loaded),
            Err(error) => linear_failed(source, prefix@, input_dim, output_dim, error),
        },
{
    let weight = linear(source, named(prefix, ".weight"), input_dim, output_dim)?;
    let bias = vector(source, named(prefix, ".bias"), output_dim)?;
    Ok(XasrLinearWithBias { weight, bias })
}

/// A matrix and its bias, of the dimensions that the model asks for.
pub open spec fn pinned_linear_from<S: WeightSource>(
    source: &S,
    prefix: Seq<char>,
    loaded: XasrLinearWithBias,
) -> bool {
    &&& gives_pinned_linear(source, prefix + ".weight"@, loaded.weight)
    &&& gives_list(source, prefix + ".bias"@, loaded.bias)
}

/// Why a matrix or its bias, of the dimensions that the model asks for, is not loaded.
pub open spec fn pinned_linear_failed<S: WeightSource>(
    source: &S,
    prefix: Seq<char>,
    error: XasrWeightsError,
) -> bool {
    ||| refuses_pinned_linear(source, prefix + ".weight"@, error)
    ||| (exists|weight: StoredLinear|
        #[trigger] gives_pinned_linear(source, prefix + ".weight"@, weight)) && refuses_list(
        source,
        prefix + ".bias"@,
        error,
    )
}

/// Loads a matrix and its bias, of the dimensions that the model asks for.
pub fn load_linear_with_bias_from_contract<S: WeightSource>(source: &S, prefix: &str) -> (result:
    Result<XasrLinearWithBias, XasrWeightsError>)
    ensures
        match result {
            Ok(loaded) => pinned_linear_from(source, prefix@, loaded),
            Err(error) => pinned_linear_failed(source, prefix@, error),
        },
{
    let weight = pinned_linear(source, named(prefix, ".weight"))?;
    let bias = list(source, named(prefix, ".bias"))?;
    Ok(XasrLinearWithBias { weight, bias })
}

/// A matrix as high as its bias is long, under the prefix.
pub open spec fn dynamic_linear_from<S: WeightSource>(
    source: &S,
    prefix: Seq<char>,
    input_dim: usize,
    loaded: XasrLinearWithBias,
) -> bool {
    exists|bias: NamedTensor|
        #[trigger] gives_named(source, prefix + ".bias"@, bias) && bias.values == loaded.bias
            && bias.dims@ == seq![bias.values@.len() as usize] && gives_linear(
            source,
            prefix + ".weight"@,
            input_dim,
            loaded.bias@.len() as usize,
            loaded.weight,
        )
}

/// Why a matrix that is as high as its bias is long is not loaded.
pub open spec fn dynamic_linear_failed<S: WeightSource>(
    source: &S,
    prefix: Seq<char>,
    input_dim: usize,
    error: XasrWeightsError,
) -> bool {
    ||| refuses_named(source, prefix + ".bias"@, error)
    ||| bias_refused(source, prefix + ".bias"@, error)
    ||| exists|bias: NamedTensor|
        #[trigger] gives_named(source, prefix + ".bias"@, bias) && bias.dims@ == seq![
            bias.values@.len() as usize,
        ] && refuses_linear(
            source,
            prefix + ".weight"@,
            input_dim,
            bias.values@.len() as usize,
            error,
        )
}

/// Loads a matrix that is as high as its bias is long.
pub fn load_dynamic_linear_with_bias<S: WeightSource>(
    source: &S,
    prefix: &str,
    input_dim: usize,
) -> (result: Result<XasrLinearWithBias, XasrWeightsError>)
    ensures
        match result {
            Ok(loaded) => dynamic_linear_from(source, prefix@, input_dim, loaded),
            Err(error) => dynamic_linear_failed(source, prefix@, input_dim, error),
        },
{
    let bias = named_tensor(source, named(prefix, ".bias"))?;
    let output_dim = bias.values.len();
    let expected = vec![output_dim];
    assert(expected@ =~= seq![bias.values@.len() as usize]);
    match ensure_dims(&bias, expected.as_slice()) {
        Ok(_) => {},
        Err(error) => {
            assert(gives_named(source, prefix@ + ".bias"@, bias));
            return Err(error);
        },
    }
    assert(gives_named(source, prefix@ + ".bias"@, bias));
    let weight = linear(source, named(prefix, ".weight"), input_dim, output_dim)?;
    Ok(XasrLinearWithBias { weight, bias: bias.values })
}

/// A one-dimensional kernel and its bias, under the prefix.
pub open spec fn conv1d_from<S: WeightSource>(
    source: &S,
    prefix: Seq<char>,
    loaded: XasrConv1dWeights,
) -> bool {
    &&& gives_named(source, prefix + ".weight"@, loaded.weight)
    &&& gives_list(source, prefix + ".bias"@, loaded.bias)
}

/// Why a kernel or its bias is not loaded.
pub open spec fn conv_failed<S: WeightSource>(
    source: &S,
    prefix: Seq<char>,
    error: XasrWeightsError,
) -> bool {
    ||| refuses_named(source, prefix + ".weight"@, error)
    ||| named_given(source, prefix + ".weight"@) && refuses_list(source, prefix + ".bias"@, error)
}

/// Loads a one-dimensional kernel and its bias.
pub fn load_conv1d_from_contract<S: WeightSource>(source: &S, prefix: &str) -> (result: Result<
    XasrConv1dWeights,
    XasrWeightsError,
>)
    ensures
        match result {
            Ok(loaded) => conv1d_from(source, prefix@, loaded),
            Err(error) => conv_failed(source, prefix@, error),
        },
{
    let weight = named_tensor(source, named(prefix, ".weight"))?;
    let bias = list(source, named(prefix, ".bias"))?;
    Ok(XasrConv1dWeights { weight, bias })
}

/// A two-dimensional kernel and its bias, under the prefix.
pub open spec fn conv2d_from<S: WeightSource>(
    source: &S,
    prefix: Seq<char>,
    loaded: XasrConv2dWeights,
) -> bool {
    &&& gives_named(source, prefix + ".weight"@, loaded.weight)
    &&& gives_list(source, prefix + ".bias"@, loaded.bias)
}

/// Loads a two-dimensional kernel and its bias.
pub fn load_conv2d_from_contract<S: WeightSource>(source: &S, prefix: &str) -> (result: Result<
    XasrConv2dWeights,
    XasrWeightsError,
>)
    ensures
        match result {
            Ok(loaded) => conv2d_from(source, prefix@, loaded),
            Err(error) => conv_failed(source, prefix@, error),
        },
{
    let weight = named_tensor(source, named(prefix, ".weight"))?;
    let bias = list(source, named(prefix, ".bias"))?;
    Ok(XasrConv2dWeights { weight, bias })
}

/// Two projections, the second back to the width of the rows.
pub open spec fn pair_from<S: WeightSource>(
    source: &S,
    prefix: Seq<char>,
    dim: usize,
    loaded: XasrLinearPairWeights,
) -> bool {
    &&& dynamic_linear_from(source, prefix + ".in_proj"@, dim, loaded.in_proj)
    &&& linear_from(
        source,
        prefix + ".out_proj"@,
        loaded.in_proj.weight.output_dim,
        dim,
        loaded.out_proj,
    )
}

/// Why two projections are not loaded.
pub open spec fn pair_failed<S: WeightSource>(
    source: &S,
    prefix: Seq<char>,
    dim: usize,
    error: XasrWeightsError,
) -> bool {
    ||| dynamic_linear_failed(source, prefix + ".in_proj"@, dim, error)
    ||| exists|in_proj: XasrLinearWithBias|
        #[trigger] dynamic_linear_from(source, prefix + ".in_proj"@, dim, in_proj)
            && linear_failed(
            source,
            prefix + ".out_proj"@,
            in_proj.weight.output_dim,
            dim,
            error,
        )
}

fn load_pair<S: WeightSource>(source: &S, prefix: &str, dim: usize) -> (result: Result<
    XasrLinearPairWeights,
    XasrWeightsError,
>)
    ensures
        match result {
            Ok(loaded) => pair_from(source, prefix@, dim, loaded),
            Err(error) => pair_failed(source, prefix@, dim, error),
        },
{
    let in_name = named(prefix, ".in_proj");
    let in_proj = load_dynamic_linear_with_bias(source, in_name.as_str(), dim)?;
    let hidden_dim = in_proj.weight.output_dim;
    let out_name = named(prefix, ".out_proj");
    let out_proj = load_linear_with_bias(source, out_name.as_str(), hidden_dim, dim)?;
    Ok(XasrLinearPairWeights { in_proj, out_proj })
}

fn part_name(prefix: &str, name: &str) -> (joined: String)
    ensures
        joined@ == prefix@ + "."@ + name@,
{
    let mut joined = text::copy_text(prefix);
    joined.append(".");
    joined.append(name);
    joined
}

/// Loads a feed-forward module of a layer.
pub fn load_feed_forward<S: WeightSource>(
    source: &S,
    prefix: &str,
    name: &str,
    dim: usize,
) -> (result: Result<
    XasrLinearPairWeights,
    XasrWeightsError,
>)
    ensures
        match result {
            Ok(loaded) => pair_from(source, prefix@ + "."@ + name@, dim, loaded),
            Err(error) => pair_failed(source, prefix@ + "."@ + name@, dim, error),
        },
{
    let joined = part_name(prefix, name);
    load_pair(source, joined.as_str(), dim)
}

/// Loads the value projections of an attention of a layer.
pub fn load_attention_value_projection<S: WeightSource>(
    source: &S,
    prefix: &str,
    name: &str,
    dim: usize,
) -> (result: Result<
    XasrLinearPairWeights,
    XasrWeightsError,
>)
    ensures
        match result {
            Ok(loaded) => pair_from(source, prefix@ + "."@ + name@, dim, loaded),
            Err(error) => pair_failed(source, prefix@ + "."@ + name@, dim, error),
        },
{
    let joined = part_name(prefix, name);
    load_pair(source, joined.as_str(), dim)
}

/// The attention weights of a layer.
pub open spec fn attention_from<S: WeightSource>(
    source: &S,
    prefix: Seq<char>,
    num_heads: usize,
    query_head_dim: usize,
    dim: usize,
    loaded: XasrSelfAttentionWeightsWeights,
) -> bool {
    let width = attention_width(num_heads, query_head_dim, loaded.linear_pos.output_dim);
    &&& gives_any_linear(
        source,
        prefix + ".self_attn_weights.linear_pos.weight"@,
        loaded.linear_pos,
    )
    &&& width <= usize::MAX
    &&& linear_from(
        source,
        prefix + ".self_attn_weights.in_proj"@,
        dim,
        width as usize,
        loaded.in_proj,
    )
}

/// Why the attention weights of a layer are not loaded: the source refuses a tensor, or
/// they are wider than can be represented.
pub open spec fn attention_failed<S: WeightSource>(
    source: &S,
    prefix: Seq<char>,
    num_heads: usize,
    query_head_dim: usize,
    dim: usize,
    error: XasrWeightsError,
) -> bool {
    let positions = prefix + ".self_attn_weights.linear_pos.weight"@;
    ||| refuses_any_linear(source, positions, error)
    ||| exists|linear_pos: StoredLinear|
        #[trigger] gives_any_linear(source, positions, linear_pos) && {
            let width = attention_width(num_heads, query_head_dim, linear_pos.output_dim);
            if width > usize::MAX {
                error matches XasrWeightsError::ExpectationOverflow { reason } && reason@
                    == prefix + ".self_attn_weights.in_proj expected output width overflows"@
            } else {
                linear_failed(
                    source,
                    prefix + ".self_attn_weights.in_proj"@,
                    dim,
                    width as usize,
                    error,
                )
            }
        }
}

/// Loads the attention weights of a layer.
pub fn load_self_attention_weights<S: WeightSource>(
    source: &S,
    prefix: &str,
    num_heads: usize,
    query_head_dim: usize,
    dim: usize,
) -> (result: Result<XasrSelfAttentionWeightsWeights, XasrWeightsError>)
    ensures
        match result {
            Ok(loaded) => attention_from(source, prefix@, num_heads, query_head_dim, dim, loaded),
            Err(error) => attention_failed(
                source,
                prefix@,
                num_heads,
                query_head_dim,
                dim,
                error,
            ),
        },
{
    let linear_pos = any_linear(
        source,
        named(prefix, ".self_attn_weights.linear_pos.weight"),
    )?;
    assert(gives_any_linear(
        source,
        prefix@ + ".self_attn_weights.linear_pos.weight"@,
        linear_pos,
    ));
    let width = projection_width(num_heads, query_head_dim, linear_pos.output_dim);
    let expected_output = match width {
        Some(width) => width,
        None => {
            let reason = named(
                prefix,
                ".self_attn_weights.in_proj expected output width overflows",
            );
            return Err(XasrWeightsError::ExpectationOverflow { reason });
        },
    };
    let in_name = named(prefix, ".self_attn_weights.in_proj");
    let in_proj = load_linear_with_bias(source, in_name.as_str(), dim, expected_output)?;
    Ok(XasrSelfAttentionWeightsWeights { in_proj, linear_pos })
}

fn projection_width(
    num_heads: usize,
    query_head_dim: usize,
    pos_dim: usize,
) -> (width: Option<usize>)
    ensures
        width is Some <==> attention_width(num_heads, query_head_dim, pos_dim) <= usize::MAX,
        width is Some ==> width->0 == attention_width(num_heads, query_head_dim, pos_dim),
{
    let query_dim = num_heads.checked_mul(query_head_dim)?;
    let both = query_dim.checked_mul(2)?;
    both.checked_add(pos_dim)
}

/// The nonlinear attention of a layer.
pub open spec fn nonlin_from<S: WeightSource>(
    source: &S,
    prefix: Seq<char>,
    dim: usize,
    loaded: XasrNonlinAttentionWeights,
) -> bool {
    &&& dynamic_linear_from(source, prefix + ".nonlin_attention.in_proj"@, dim, loaded.in_proj)
    &&& linear_from(
        source,
        prefix + ".nonlin_attention.out_proj"@,
        loaded.in_proj.weight.output_dim / 3,
        dim,
        loaded.out_proj,
    )
}

/// Why the nonlinear attention of a layer is not loaded.
pub open spec fn nonlin_failed<S: WeightSource>(
    source: &S,
    prefix: Seq<char>,
    dim: usize,
    error: XasrWeightsError,
) -> bool {
    ||| dynamic_linear_failed(source, prefix + ".nonlin_attention.in_proj"@, dim, error)
    ||| exists|in_proj: XasrLinearWithBias|
        #[trigger] dynamic_linear_from(
            source,
            prefix + ".nonlin_attention.in_proj"@,
            dim,
            in_proj,
        ) && linear_failed(
            source,
            prefix + ".nonlin_attention.out_proj"@,
            in_proj.weight.output_dim / 3,
            dim,
            error,
        )
}

/// Loads the nonlinear attention of a layer.
pub fn load_nonlin_attention<S: WeightSource>(source: &S, prefix: &str, dim: usize) -> (result:
    Result<XasrNonlinAttentionWeights, XasrWeightsError>)
    ensures
        match result {
            Ok(loaded) => nonlin_from(source, prefix@, dim, loaded),
            Err(error) => nonlin_failed(source, prefix@, dim, error),
        },
{
    let in_name = named(prefix, ".nonlin_attention.in_proj");
    let in_proj = load_dynamic_linear_with_bias(source, in_name.as_str(), dim)?;
    let out_input_dim = in_proj.weight.output_dim / 3;
    let out_name = named(prefix, ".nonlin_attention.out_proj");
    let out_proj = load_linear_with_bias(source, out_name.as_str(), out_input_dim, dim)?;
    Ok(XasrNonlinAttentionWeights { in_proj, out_proj })
}

/// A convolution module of a layer.
pub open spec fn convolution_from<S: WeightSource>(
    source: &S,
    prefix: Seq<char>,
    loaded: XasrConvolutionModuleWeights,
) -> bool {
    &&& pinned_linear_from(source, prefix + ".in_proj"@, loaded.in_proj)
    &&& conv1d_from(
        source,
        prefix + ".depthwise_conv.causal_conv"@,
        loaded.depthwise_causal_conv,
    )
    &&& conv1d_from(
        source,
        prefix + ".depthwise_conv.chunkwise_conv"@,
        loaded.depthwise_chunkwise_conv,
    )
    &&& gives_named(
        source,
        prefix + ".depthwise_conv.chunkwise_conv_scale"@,
        loaded.chunkwise_conv_scale,
    )
    &&& pinned_linear_from(source, prefix + ".out_proj"@, loaded.out_proj)
}

/// The source gives a matrix and its bias.
pub open spec fn pinned_linear_given<S: WeightSource>(source: &S, prefix: Seq<char>) -> bool {
    exists|loaded: XasrLinearWithBias| #[trigger] pinned_linear_from(source, prefix, loaded)
}

/// The source gives a one-dimensional kernel and its bias.
pub open spec fn conv1d_given<S: WeightSource>(source: &S, prefix: Seq<char>) -> bool {
    exists|loaded: XasrConv1dWeights| #[trigger] conv1d_from(source, prefix, loaded)
}

/// Why a convolution module of a layer is not loaded: the first part that is not given
/// is refused.
pub open spec fn convolution_failed<S: WeightSource>(
    source: &S,
    prefix: Seq<char>,
    error: XasrWeightsError,
) -> bool {
    let after1 = pinned_linear_given(source, prefix + ".in_proj"@);
    let after2 = after1 && conv1d_given(source, prefix + ".depthwise_conv.causal_conv"@);
    let after3 = after2 && conv1d_given(source, prefix + ".depthwise_conv.chunkwise_conv"@);
    let after4 = after3 && named_given(source, prefix + ".depthwise_conv.chunkwise_conv_scale"@);
    ||| pinned_linear_failed(source, prefix + ".in_proj"@, error)
    ||| after1 && conv_failed(source, prefix + ".depthwise_conv.causal_conv"@, error)
    ||| after2 && conv_failed(source, prefix + ".depthwise_conv.chunkwise_conv"@, error)
    ||| after3 && refuses_named(source, prefix + ".depthwise_conv.chunkwise_conv_scale"@, error)
    ||| after4 && pinned_linear_failed(source, prefix + ".out_proj"@, error)
}

/// Loads a convolution module of a layer.
pub fn load_convolution_module<S: WeightSource>(source: &S, prefix: &str, name: &str) -> (result:
    Result<XasrConvolutionModuleWeights, XasrWeightsError>)
    ensures
        match result {
            Ok(loaded) => convolution_from(source, prefix@ + "."@ + name@, loaded),
            Err(error) => convolution_failed(source, prefix@ + "."@ + name@, error),
        },
{
    let joined = part_name(prefix, name);
    let in_name = named(joined.as_str(), ".in_proj");
    let in_proj = load_linear_with_bias_from_contract(source, in_name.as_str())?;
    let causal_name = named(joined.as_str(), ".depthwise_conv.causal_conv");
    let depthwise_causal_conv = load_conv1d_from_contract(source, causal_name.as_str())?;
    let chunk_name = named(joined.as_str(), ".depthwise_conv.chunkwise_conv");
    let depthwise_chunkwise_conv = load_conv1d_from_contract(source, chunk_name.as_str())?;
    let chunkwise_conv_scale = named_tensor(
        source,
        named(joined.as_str(), ".depthwise_conv.chunkwise_conv_scale"),
    )?;
    let out_name = named(joined.as_str(), ".out_proj");
    let out_proj = load_linear_with_bias_from_contract(source, out_name.as_str())?;
    Ok(
        XasrConvolutionModuleWeights {
            in_proj,
            depthwise_causal_conv,
            depthwise_chunkwise_conv,
            chunkwise_conv_scale,
            out_proj,
        },
    )
}

/// A layer of the encoder.
pub open spec fn layer_from<S: WeightSource>(
    source: &S,
    prefix: Seq<char>,
    num_heads: usize,
    query_head_dim: usize,
    dim: usize,
    loaded: XasrEncoderLayerWeights,
) -> bool {
    &&& pair_from(source, prefix + "."@ + "feed_forward1"@, dim, loaded.feed_forward1)
    &&& pair_from(source, prefix + "."@ + "feed_forward2"@, dim, loaded.feed_forward2)
    &&& pair_from(source, prefix + "."@ + "feed_forward3"@, dim, loaded.feed_forward3)
    &&& attention_from(
        source,
        prefix,
        num_heads,
        query_head_dim,
        dim,
        loaded.self_attn_weights,
    )
    &&& pair_from(source, prefix + "."@ + "self_attn1"@, dim, loaded.self_attn1)
    &&& pair_from(source, prefix + "."@ + "self_attn2"@, dim, loaded.self_attn2)
    &&& nonlin_from(source, prefix, dim, loaded.nonlin_attention)
    &&& convolution_from(source, prefix + "."@ + "conv_module1"@, loaded.conv_module1)
    &&& convolution_from(source, prefix + "."@ + "conv_module2"@, loaded.conv_module2)
    &&& gives_list(source, prefix + ".norm.bias"@, loaded.norm_bias)
    &&& gives_list(source, prefix + ".norm.log_scale"@, loaded.norm_log_scale)
    &&& gives_list(source, prefix + ".bypass.bypass_scale"@, loaded.bypass_scale)
    &&& gives_list(source, prefix + ".bypass_mid.bypass_scale"@, loaded.bypass_mid_scale)
}

/// The source gives two projections.
pub open spec fn pair_given<S: WeightSource>(source: &S, prefix: Seq<char>, dim: usize) -> bool {
    exists|loaded: XasrLinearPairWeights| #[trigger] pair_from(source, prefix, dim, loaded)
}

/// The source gives the attention weights of a layer.
pub open spec fn attention_given<S: WeightSource>(
    source: &S,
    prefix: Seq<char>,
    num_heads: usize,
    query_head_dim: usize,
    dim: usize,
) -> bool {
    exists|loaded: XasrSelfAttentionWeightsWeights| #[trigger]
        attention_from(source, prefix, num_heads, query_head_dim, dim, loaded)
}

/// The source gives the nonlinear attention of a layer.
pub open spec fn nonlin_given<S: WeightSource>(source: &S, prefix: Seq<char>, dim: usize) -> bool {
    exists|loaded: XasrNonlinAttentionWeights| #[trigger] nonlin_from(source, prefix, dim, loaded)
}

/// The source gives a convolution module.
pub open spec fn convolution_given<S: WeightSource>(source: &S, prefix: Seq<char>) -> bool {
    exists|loaded: XasrConvolutionModuleWeights| #[trigger] convolution_from(source, prefix, loaded)
}

/// Why a layer of the encoder is not loaded: the first part that is not given is refused.
pub open spec fn layer_failed<S: WeightSource>(
    source: &S,
    prefix: Seq<char>,
    num_heads: usize,
    query_head_dim: usize,
    dim: usize,
    error: XasrWeightsError,
) -> bool {
    let after1 = pair_given(source, prefix + "."@ + "feed_forward1"@, dim);
    let after2 = after1 && pair_given(source, prefix + "."@ + "feed_forward2"@, dim);
    let after3 = after2 && pair_given(source, prefix + "."@ + "feed_forward3"@, dim);
    let after4 = after3 && attention_given(source, prefix, num_heads, query_head_dim, dim);
    let after5 = after4 && pair_given(source, prefix + "."@ + "self_attn1"@, dim);
    let after6 = after5 && pair_given(source, prefix + "."@ + "self_attn2"@, dim);
    let after7 = after6 && nonlin_given(source, prefix, dim);
    let after8 = after7 && convolution_given(source, prefix + "."@ + "conv_module1"@);
    let after9 = after8 && convolution_given(source, prefix + "."@ + "conv_module2"@);
    let after10 = after9 && list_given(source, prefix + ".norm.bias"@);
    let after11 = after10 && list_given(source, prefix + ".norm.log_scale"@);
    let after12 = after11 && list_given(source, prefix + ".bypass.bypass_scale"@);
    ||| pair_failed(source, prefix + "."@ + "feed_forward1"@, dim, error)
    ||| after1 && pair_failed(source, prefix + "."@ + "feed_forward2"@, dim, error)
    ||| after2 && pair_failed(source, prefix + "."@ + "feed_forward3"@, dim, error)
    ||| after3 && attention_failed(source, prefix, num_heads, query_head_dim, dim, error)
    ||| after4 && pair_failed(source, prefix + "."@ + "self_attn1"@, dim, error)
    ||| after5 && pair_failed(source, prefix + "."@ + "self_attn2"@, dim, error)
    ||| after6 && nonlin_failed(source, prefix, dim, error)
    ||| after7 && convolution_failed(source, prefix + "."@ + "conv_module1"@, error)
    ||| after8 && convolution_failed(source, prefix + "."@ + "conv_module2"@, error)
    ||| after9 && refuses_list(source, prefix + ".norm.bias"@, error)
    ||| after10 && refuses_list(source, prefix + ".norm.log_scale"@, error)
    ||| after11 && refuses_list(source, prefix + ".bypass.bypass_scale"@, error)
    ||| after12 && refuses_list(source, prefix + ".bypass_mid.bypass_scale"@, error)
}

/// Loads a layer of the encoder.
pub fn load_layer_weights<S: WeightSource>(
    source: &S,
    metadata: &XasrZipformerExecutionMetadata,
    stack: usize,
    layer: usize,
) -> (result: Result<XasrEncoderLayerWeights, XasrWeightsError>)
    requires
        stack < metadata.encoder_dims@.len(),
        stack < metadata.num_heads@.len(),
        stack < metadata.query_head_dims@.len(),
    ensures
        match result {
            Ok(loaded) => layer_from(
                source,
                prefix_of(stack as nat, layer as nat),
                metadata.num_heads@[stack as int],
                metadata.query_head_dims@[stack as int],
                metadata.encoder_dims@[stack as int],
                loaded,
            ),
            Err(error) => layer_failed(
                source,
                prefix_of(stack as nat, layer as nat),
                metadata.num_heads@[stack as int],
                metadata.query_head_dims@[stack as int],
                metadata.encoder_dims@[stack as int],
                error,
            ),
        },
{
    let dim = metadata.encoder_dims[stack];
    let joined = layer_prefix(stack, layer);
    let prefix = joined.as_str();
    let feed_forward1 = load_feed_forward(source, prefix, "feed_forward1", dim)?;
    let feed_forward2 = load_feed_forward(source, prefix, "feed_forward2", dim)?;
    let feed_forward3 = load_feed_forward(source, prefix, "feed_forward3", dim)?;
    let self_attn_weights = load_self_attention_weights(
        source,
        prefix,
        metadata.num_heads[stack],
        metadata.query_head_dims[stack],
        dim,
    )?;
    let self_attn1 = load_attention_value_projection(source, prefix, "self_attn1", dim)?;
    let self_attn2 = load_attention_value_projection(source, prefix, "self_attn2", dim)?;
    let nonlin_attention = load_nonlin_attention(source, prefix, dim)?;
    let conv_module1 = load_convolution_module(source, prefix, "conv_module1")?;
    let conv_module2 = load_convolution_module(source, prefix, "conv_module2")?;
    let norm_bias = list(source, named(prefix, ".norm.bias"))?;
    let norm_log_scale = list(source, named(prefix, ".norm.log_scale"))?;
    let bypass_scale = list(source, named(prefix, ".bypass.bypass_scale"))?;
    let bypass_mid_scale = list(source, named(prefix, ".bypass_mid.bypass_scale"))?;
    Ok(
        XasrEncoderLayerWeights {
            feed_forward1,
            feed_forward2,
            feed_forward3,
            self_attn_weights,
            self_attn1,
            self_attn2,
            nonlin_attention,
            conv_module1,
            conv_module2,
            norm_bias,
            norm_log_scale,
            bypass_scale,
            bypass_mid_scale,
        },
    )
}

/// The name of a tensor of a stack.
pub open spec fn stack_name(stack: nat, rest: Seq<char>) -> Seq<char> {
    "encoder.encoders."@ + decimal(stack) + rest
}

fn stack_tensor_name(stack: usize, rest: &str) -> (name: String)
    ensures
        name@ == stack_name(stack as nat, rest@),
{
    let mut name = text::copy_text("encoder.encoders.");
    text::push_number(&mut name, stack);
    name.append(rest);
    name
}

/// The lists of the metadata have an entry for this stack.
pub open spec fn describes_stack(metadata: XasrZipformerExecutionMetadata, stack: int) -> bool {
    &&& stack < metadata.num_encoder_layers@.len()
    &&& stack < metadata.encoder_dims@.len()
    &&& stack < metadata.num_heads@.len()
    &&& stack < metadata.query_head_dims@.len()
    &&& stack < metadata.downsampling_factors@.len()
}

/// A stack of the encoder.  Only the first has neither downsampling nor
/// combiner.
pub open spec fn stack_from<S: WeightSource>(
    source: &S,
    metadata: XasrZipformerExecutionMetadata,
    stack: int,
    loaded: XasrEncoderStackWeights,
) -> bool {
    &&& loaded.stack == stack
    &&& loaded.dim == metadata.encoder_dims@[stack]
    &&& loaded.downsampling_factor == metadata.downsampling_factors@[stack]
    &&& loaded.layers@.len() == metadata.num_encoder_layers@[stack]
    &&& forall|layer: int|
        0 <= layer < loaded.layers@.len() ==> layer_from(
            source,
            prefix_of(stack as nat, layer as nat),
            metadata.num_heads@[stack],
            metadata.query_head_dims@[stack],
            metadata.encoder_dims@[stack],
            #[trigger] loaded.layers@[layer],
        )
    &&& loaded.downsample_bias is Some <==> stack != 0
    &&& loaded.out_combiner_bypass_scale is Some <==> stack != 0
    &&& stack != 0 ==> {
        &&& gives_list(
            source,
            stack_name(stack as nat, ".downsample.bias"@),
            loaded.downsample_bias->0,
        )
        &&& gives_list(
            source,
            stack_name(stack as nat, ".out_combiner.bypass_scale"@),
            loaded.out_combiner_bypass_scale->0,
        )
    }
}

/// The source gives the first `count` layers of a stack.
pub open spec fn layers_given<S: WeightSource>(
    source: &S,
    metadata: XasrZipformerExecutionMetadata,
    stack: int,
    count: int,
) -> bool {
    exists|layers: Seq<XasrEncoderLayerWeights>| #[trigger]
        layers_from(source, metadata, stack, layers) && layers.len() == count
}

/// The first layers of a stack.
pub open spec fn layers_from<S: WeightSource>(
    source: &S,
    metadata: XasrZipformerExecutionMetadata,
    stack: int,
    layers: Seq<XasrEncoderLayerWeights>,
) -> bool {
    forall|layer: int|
        0 <= layer < layers.len() ==> layer_from(
            source,
            prefix_of(stack as nat, layer as nat),
            metadata.num_heads@[stack],
            metadata.query_head_dims@[stack],
            metadata.encoder_dims@[stack],
            #[trigger] layers[layer],
        )
}

/// Why a stack of the encoder is not loaded: the first part that is not given is refused.
pub open spec fn stack_failed<S: WeightSource>(
    source: &S,
    metadata: XasrZipformerExecutionMetadata,
    stack: int,
    error: XasrWeightsError,
) -> bool {
    ||| exists|layer: int|
        0 <= layer < metadata.num_encoder_layers@[stack] && layers_given(
            source,
            metadata,
            stack,
            layer,
        ) && #[trigger] layer_failed(
            source,
            prefix_of(stack as nat, layer as nat),
            metadata.num_heads@[stack],
            metadata.query_head_dims@[stack],
            metadata.encoder_dims@[stack],
            error,
        )
    ||| stack != 0 && layers_given(
        source,
        metadata,
        stack,
        metadata.num_encoder_layers@[stack] as int,
    ) && {
        ||| refuses_list(source, stack_name(stack as nat, ".downsample.bias"@), error)
        ||| list_given(source, stack_name(stack as nat, ".downsample.bias"@)) && refuses_list(
            source,
            stack_name(stack as nat, ".out_combiner.bypass_scale"@),
            error,
        )
    }
}

/// Loads a stack of the encoder.
pub fn load_stack_weights<S: WeightSource>(
    source: &S,
    metadata: &XasrZipformerExecutionMetadata,
    stack: usize,
) -> (result: Result<XasrEncoderStackWeights, XasrWeightsError>)
    requires
        describes_stack(*metadata, stack as int),
    ensures
        match result {
            Ok(loaded) => stack_from(source, *metadata, stack as int, loaded),
            Err(error) => stack_failed(source, *metadata, stack as int, error),
        },
{
    let dim = metadata.encoder_dims[stack];
    let mut layers: Vec<XasrEncoderLayerWeights> = Vec::new();
    let mut layer: usize = 0;
    while layer < metadata.num_encoder_layers[stack]
        invariant
            describes_stack(*metadata, stack as int),
            layer <= metadata.num_encoder_layers@[stack as int],
            layers@.len() == layer,
            forall|k: int|
                0 <= k < layer ==> layer_from(
                    source,
                    prefix_of(stack as nat, k as nat),
                    metadata.num_heads@[stack as int],
                    metadata.query_head_dims@[stack as int],
                    metadata.encoder_dims@[stack as int],
                    #[trigger] layers@[k],
                ),
        decreases metadata.num_encoder_layers@[stack as int] - layer,
    {
        let ghost at: int = layer as int;
        let ghost own: int = stack as int;
        assert(at as nat == layer as nat);
        assert(layers_from(source, *metadata, stack as int, layers@));
        assert(layers_given(source, *metadata, stack as int, at));
        let loaded = match load_layer_weights(source, metadata, stack, layer) {
            Ok(loaded) => loaded,
            Err(error) => {
                assert(layer_failed(
                    source,
                    prefix_of(own as nat, at as nat),
                    metadata.num_heads@[own],
                    metadata.query_head_dims@[own],
                    metadata.encoder_dims@[own],
                    error,
                ));
                assert(stack_failed(source, *metadata, own, error));
                return Err(error);
            },
        };
        layers.push(loaded);
        layer = layer + 1;
    }
    assert(layers_from(source, *metadata, stack as int, layers@));
    let mut downsample_bias: Option<Vec<u32>> = None;
    let mut out_combiner_bypass_scale: Option<Vec<u32>> = None;
    if stack != 0 {
        let bias = list(source, stack_tensor_name(stack, ".downsample.bias"))?;
        let scale = list(source, stack_tensor_name(stack, ".out_combiner.bypass_scale"))?;
        downsample_bias = Some(bias);
        out_combiner_bypass_scale = Some(scale);
    }
    Ok(
        XasrEncoderStackWeights {
            stack,
            dim,
            downsampling_factor: metadata.downsampling_factors[stack],
            layers,
            downsample_bias,
            out_combiner_bypass_scale,
        },
    )
}

/// The embedding of the encoder.
pub open spec fn embed_from<S: WeightSource>(source: &S, loaded: XasrEncoderEmbedWeights) -> bool {
    &&& conv2d_from(source, "encoder_embed.conv.0"@, loaded.conv0)
    &&& conv2d_from(source, "encoder_embed.conv.4"@, loaded.conv4)
    &&& conv2d_from(source, "encoder_embed.conv.7"@, loaded.conv7)
    &&& conv2d_from(
        source,
        "encoder_embed.convnext.depthwise_conv"@,
        loaded.convnext_depthwise,
    )
    &&& conv2d_from(
        source,
        "encoder_embed.convnext.pointwise_conv1"@,
        loaded.convnext_pointwise1,
    )
    &&& conv2d_from(
        source,
        "encoder_embed.convnext.pointwise_conv2"@,
        loaded.convnext_pointwise2,
    )
    &&& pinned_linear_from(source, "encoder_embed.out"@, loaded.out)
    &&& gives_list(source, "encoder_embed.out_norm.bias"@, loaded.out_norm_bias)
    &&& gives_list(source, "encoder_embed.out_norm.log_scale"@, loaded.out_norm_log_scale)
}

/// The source gives a two-dimensional kernel and its bias.
pub open spec fn conv2d_given<S: WeightSource>(source: &S, prefix: Seq<char>) -> bool {
    exists|loaded: XasrConv2dWeights| #[trigger] conv2d_from(source, prefix, loaded)
}

/// Why the embedding of the encoder is not loaded: the first part that is not given is
/// refused.
pub open spec fn embed_failed<S: WeightSource>(source: &S, error: XasrWeightsError) -> bool {
    let after1 = conv2d_given(source, "encoder_embed.conv.0"@);
    let after2 = after1 && conv2d_given(source, "encoder_embed.conv.4"@);
    let after3 = after2 && conv2d_given(source, "encoder_embed.conv.7"@);
    let after4 = after3 && conv2d_given(source, "encoder_embed.convnext.depthwise_conv"@);
    let after5 = after4 && conv2d_given(source, "encoder_embed.convnext.pointwise_conv1"@);
    let after6 = after5 && conv2d_given(source, "encoder_embed.convnext.pointwise_conv2"@);
    let after7 = after6 && pinned_linear_given(source, "encoder_embed.out"@);
    let after8 = after7 && list_given(source, "encoder_embed.out_norm.bias"@);
    ||| conv_failed(source, "encoder_embed.conv.0"@, error)
    ||| after1 && conv_failed(source, "encoder_embed.conv.4"@, error)
    ||| after2 && conv_failed(source, "encoder_embed.conv.7"@, error)
    ||| after3 && conv_failed(source, "encoder_embed.convnext.depthwise_conv"@, error)
    ||| after4 && conv_failed(source, "encoder_embed.convnext.pointwise_conv1"@, error)
    ||| after5 && conv_failed(source, "encoder_embed.convnext.pointwise_conv2"@, error)
    ||| after6 && pinned_linear_failed(source, "encoder_embed.out"@, error)
    ||| after7 && refuses_list(source, "encoder_embed.out_norm.bias"@, error)
    ||| after8 && refuses_list(source, "encoder_embed.out_norm.log_scale"@, error)
}

/// Loads the embedding of the encoder.
pub fn load_embed_weights<S: WeightSource>(source: &S) -> (result: Result<
    XasrEncoderEmbedWeights,
    XasrWeightsError,
>)
    ensures
        match result {
            Ok(loaded) => embed_from(source, loaded),
            Err(error) => embed_failed(source, error),
        },
{
    let conv0 = load_conv2d_from_contract(source, "encoder_embed.conv.0")?;
    let conv4 = load_conv2d_from_contract(source, "encoder_embed.conv.4")?;
    let conv7 = load_conv2d_from_contract(source, "encoder_embed.conv.7")?;
    let convnext_depthwise = load_conv2d_from_contract(
        source,
        "encoder_embed.convnext.depthwise_conv",
    )?;
    let convnext_pointwise1 = load_conv2d_from_contract(
        source,
        "encoder_embed.convnext.pointwise_conv1",
    )?;
    let convnext_pointwise2 = load_conv2d_from_contract(
        source,
        "encoder_embed.convnext.pointwise_conv2",
    )?;
    let out = load_linear_with_bias_from_contract(source, "encoder_embed.out")?;
    let out_norm_bias = list(source, text::copy_text("encoder_embed.out_norm.bias"))?;
    let out_norm_log_scale = list(source, text::copy_text("encoder_embed.out_norm.log_scale"))?;
    Ok(
        XasrEncoderEmbedWeights {
            conv0,
            conv4,
            conv7,
            convnext_depthwise,
            convnext_pointwise1,
            convnext_pointwise2,
            out,
            out_norm_bias,
            out_norm_log_scale,
        },
    )
}

/// The first stacks of the encoder.
pub open spec fn stacks_from<S: WeightSource>(
    source: &S,
    metadata: XasrZipformerExecutionMetadata,
    stacks: Seq<XasrEncoderStackWeights>,
) -> bool {
    forall|stack: int|
        0 <= stack < stacks.len() ==> stack_from(
            source,
            metadata,
            stack,
            #[trigger] stacks[stack],
        )
}

/// The source gives the embedding and the first `count` stacks of the encoder.
pub open spec fn stacks_given<S: WeightSource>(
    source: &S,
    metadata: XasrZipformerExecutionMetadata,
    count: int,
) -> bool {
    &&& exists|loaded: XasrEncoderEmbedWeights| #[trigger] embed_from(source, loaded)
    &&& exists|stacks: Seq<XasrEncoderStackWeights>| #[trigger]
        stacks_from(source, metadata, stacks) && stacks.len() == count
}

/// Why the weights of the encoder are not loaded: the first part that is not given is
/// refused.
pub open spec fn weights_failed<S: WeightSource>(
    source: &S,
    metadata: XasrZipformerExecutionMetadata,
    error: XasrWeightsError,
) -> bool {
    ||| embed_failed(source, error)
    ||| exists|stack: int|
        0 <= stack < metadata.num_stacks && stacks_given(source, metadata, stack)
            && #[trigger] stack_failed(source, metadata, stack, error)
    ||| stacks_given(source, metadata, metadata.num_stacks as int) && refuses_list(
        source,
        "encoder.downsample_output.bias"@,
        error,
    )
}

/// Loads the weights of the encoder.
pub fn load_xasr_encoder_weights<S: WeightSource>(
    source: &S,
    metadata: &XasrZipformerExecutionMetadata,
) -> (result: Result<XasrEncoderWeights, XasrWeightsError>)
    requires
        forall|stack: int|
            0 <= stack < metadata.num_stacks ==> #[trigger] describes_stack(*metadata, stack),
    ensures
        match result {
            Ok(loaded) => {
                &&& embed_from(source, loaded.embed)
                &&& loaded.stacks@.len() == metadata.num_stacks
                &&& forall|stack: int|
                    0 <= stack < metadata.num_stacks ==> stack_from(
                        source,
                        *metadata,
                        stack,
                        #[trigger] loaded.stacks@[stack],
                    )
                &&& gives_list(
                    source,
                    "encoder.downsample_output.bias"@,
                    loaded.downsample_output_bias,
                )
                &&& forall|store: TensorStore| #[trigger]
                    answers(source, store) ==> store.encoder(loaded)
            },
            Err(error) => weights_failed(source, *metadata, error),
        },
{
    let embed = load_embed_weights(source)?;
    assert(embed_from(source, embed));
    let mut stacks: Vec<XasrEncoderStackWeights> = Vec::new();
    let mut stack: usize = 0;
    while stack < metadata.num_stacks
        invariant
            stack <= metadata.num_stacks,
            forall|s: int|
                0 <= s < metadata.num_stacks ==> #[trigger] describes_stack(*metadata, s),
            embed_from(source, embed),
            stacks@.len() == stack,
            forall|s: int|
                0 <= s < stack ==> stack_from(source, *metadata, s, #[trigger] stacks@[s]),
        decreases metadata.num_stacks - stack,
    {
        assert(describes_stack(*metadata, stack as int));
        assert(stacks_from(source, *metadata, stacks@));
        assert(stacks_given(source, *metadata, stack as int));
        let loaded = load_stack_weights(source, metadata, stack)?;
        stacks.push(loaded);
        stack = stack + 1;
    }
    assert(stacks_from(source, *metadata, stacks@));
    assert(stacks_given(source, *metadata, stack as int));
    let downsample_output_bias = list(source, text::copy_text("encoder.downsample_output.bias"))?;
    let weights = XasrEncoderWeights { embed, stacks, downsample_output_bias };
    proof {
        assert forall|store: TensorStore| #[trigger] answers(source, store) implies store.encoder(
            weights,
        ) by {
            law_a_loaded_embedding_holds_its_own_tensors(source, store, weights.embed);
            assert forall|s: int| 0 <= s < weights.stacks@.len() implies store.stack(
                s,
                #[trigger] weights.stacks@[s],
            ) by {
                law_a_loaded_stack_holds_its_own_tensors(
                    source,
                    store,
                    *metadata,
                    s,
                    weights.stacks@[s],
                );
            }
        }
    }
    Ok(weights)
}

} // verus!
