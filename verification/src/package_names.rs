//! Names, dimensions and types of the tensors of a runtime pack.

use vstd::prelude::*;
use crate::chars;
use crate::chars::{
    chars_of, contains, ends_with, found_at, has_suffix, occurs, replaced, text_of,
};

verus! {

/// Bytes that a tensor name of a pack may have.
pub const GGUF_MAX_TENSOR_NAME: usize = 63;

/// Number of abbreviations.
pub const REPLACEMENT_COUNT: usize = 21;

/// Abbreviation `i`: what is replaced, and by what.  The longer of two that
/// share a beginning comes first.
pub open spec fn spec_replacement(i: int) -> (Seq<char>, Seq<char>) {
    if i == 0 {
        ("encoder.encoders."@, "E"@)
    } else if i == 1 {
        (".encoder.layers."@, ".L"@)
    } else if i == 2 {
        (".layers."@, ".L"@)
    } else if i == 3 {
        ("encoder_embed."@, "EE."@)
    } else if i == 4 {
        ("conv_module"@, "CM"@)
    } else if i == 5 {
        ("depthwise_conv."@, "DW."@)
    } else if i == 6 {
        ("pointwise_conv"@, "PW"@)
    } else if i == 7 {
        ("chunkwise_conv"@, "KC"@)
    } else if i == 8 {
        ("causal_conv"@, "CC"@)
    } else if i == 9 {
        ("nonlin_attention."@, "NA."@)
    } else if i == 10 {
        ("self_attn_weights."@, "SAW."@)
    } else if i == 11 {
        ("self_attn."@, "SA."@)
    } else if i == 12 {
        ("feed_forward"@, "FF"@)
    } else if i == 13 {
        ("in_proj"@, "IP"@)
    } else if i == 14 {
        ("out_proj"@, "OP"@)
    } else if i == 15 {
        ("linear_pos"@, "LP"@)
    } else if i == 16 {
        ("bypass"@, "BY"@)
    } else if i == 17 {
        ("downsample"@, "DS"@)
    } else if i == 18 {
        ("convnext"@, "CX"@)
    } else if i == 19 {
        ("output_linear"@, "OL"@)
    } else {
        ("embedding"@, "EMB"@)
    }
}

fn replacement(i: usize) -> (pair: (&'static str, &'static str))
    ensures
        (pair.0@, pair.1@) == spec_replacement(i as int),
{
    if i == 0 {
        ("encoder.encoders.", "E")
    } else if i == 1 {
        (".encoder.layers.", ".L")
    } else if i == 2 {
        (".layers.", ".L")
    } else if i == 3 {
        ("encoder_embed.", "EE.")
    } else if i == 4 {
        ("conv_module", "CM")
    } else if i == 5 {
        ("depthwise_conv.", "DW.")
    } else if i == 6 {
        ("pointwise_conv", "PW")
    } else if i == 7 {
        ("chunkwise_conv", "KC")
    } else if i == 8 {
        ("causal_conv", "CC")
    } else if i == 9 {
        ("nonlin_attention.", "NA.")
    } else if i == 10 {
        ("self_attn_weights.", "SAW.")
    } else if i == 11 {
        ("self_attn.", "SA.")
    } else if i == 12 {
        ("feed_forward", "FF")
    } else if i == 13 {
        ("in_proj", "IP")
    } else if i == 14 {
        ("out_proj", "OP")
    } else if i == 15 {
        ("linear_pos", "LP")
    } else if i == 16 {
        ("bypass", "BY")
    } else if i == 17 {
        ("downsample", "DS")
    } else if i == 18 {
        ("convnext", "CX")
    } else if i == 19 {
        ("output_linear", "OL")
    } else {
        ("embedding", "EMB")
    }
}

/// A name after the first `n` abbreviations, one after the other.
pub open spec fn abbreviated(name: Seq<char>, n: int) -> Seq<char>
    decreases n,
{
    if n <= 0 {
        name
    } else {
        replaced(abbreviated(name, n - 1), spec_replacement(n - 1).0, spec_replacement(n - 1).1)
    }
}

/// The name under which a pack holds a tensor.
pub open spec fn compacted(name: Seq<char>) -> Seq<char> {
    abbreviated(name, REPLACEMENT_COUNT as int)
}

/// The name under which a pack holds a tensor.  The importer and the runtime
/// both find tensors by it.
pub fn compact_xasr_name(name: &str) -> (compact: String)
    ensures
        compact@ == compacted(name@),
{
    let mut current = chars_of(name);
    let mut i: usize = 0;
    while i < REPLACEMENT_COUNT
        invariant
            i <= REPLACEMENT_COUNT,
            current@ == abbreviated(name@, i as int),
        decreases REPLACEMENT_COUNT - i,
    {
        let (from, to) = replacement(i);
        let pattern = chars_of(from);
        let with = chars_of(to);
        current = chars::replace(current.as_slice(), pattern.as_slice(), with.as_slice());
        i = i + 1;
    }
    let compact = text_of(current.as_slice(), 0, current.len());
    assert(compact@ =~= current@);
    compact
}

/// The bytes that a name takes in a pack.
pub open spec fn name_bytes(name: Seq<char>) -> int {
    vstd::utf8::encode_utf8(name).len() as int
}

proof fn lemma_bytes_joined(a: Seq<char>, b: Seq<char>)
    ensures
        name_bytes(a + b) == name_bytes(a) + name_bytes(b),
    decreases a.len(),
{
    if a.len() == 0 {
        assert(a + b =~= b);
    } else {
        assert((a + b).drop_first() =~= a.drop_first() + b);
        lemma_bytes_joined(a.drop_first(), b);
    }
}

/// Replacing by something that takes no more bytes takes no more bytes.
proof fn lemma_replaced_bytes(text: Seq<char>, pattern: Seq<char>, with: Seq<char>)
    requires
        name_bytes(with) <= name_bytes(pattern),
    ensures
        name_bytes(replaced(text, pattern, with)) <= name_bytes(text),
    decreases text.len(),
{
    let n = pattern.len() as int;
    if text.len() > 0 && n > 0 {
        if found_at(text, pattern, 0) {
            assert(text =~= pattern + text.skip(n));
            lemma_bytes_joined(pattern, text.skip(n));
            lemma_bytes_joined(with, replaced(text.skip(n), pattern, with));
            lemma_replaced_bytes(text.skip(n), pattern, with);
        } else {
            assert(text =~= seq![text[0]] + text.skip(1));
            lemma_bytes_joined(seq![text[0]], text.skip(1));
            lemma_bytes_joined(seq![text[0]], replaced(text.skip(1), pattern, with));
            lemma_replaced_bytes(text.skip(1), pattern, with);
        }
    }
}

/// No abbreviation takes more bytes than what it stands for.
#[verifier::spinoff_prover]
proof fn lemma_replacements_shorten(i: int)
    requires
        0 <= i < REPLACEMENT_COUNT,
    ensures
        name_bytes(spec_replacement(i).1) <= name_bytes(spec_replacement(i).0),
{
    if i == 0 {
        reveal_strlit("encoder.encoders.");
        reveal_strlit("E");
    } else if i == 1 {
        reveal_strlit(".encoder.layers.");
        reveal_strlit(".L");
    } else if i == 2 {
        reveal_strlit(".layers.");
        reveal_strlit(".L");
    } else if i == 3 {
        reveal_strlit("encoder_embed.");
        reveal_strlit("EE.");
    } else if i == 4 {
        reveal_strlit("conv_module");
        reveal_strlit("CM");
    } else if i == 5 {
        reveal_strlit("depthwise_conv.");
        reveal_strlit("DW.");
    } else if i == 6 {
        reveal_strlit("pointwise_conv");
        reveal_strlit("PW");
    } else if i == 7 {
        reveal_strlit("chunkwise_conv");
        reveal_strlit("KC");
    } else if i == 8 {
        reveal_strlit("causal_conv");
        reveal_strlit("CC");
    } else if i == 9 {
        reveal_strlit("nonlin_attention.");
        reveal_strlit("NA.");
    } else if i == 10 {
        reveal_strlit("self_attn_weights.");
        reveal_strlit("SAW.");
    } else if i == 11 {
        reveal_strlit("self_attn.");
        reveal_strlit("SA.");
    } else if i == 12 {
        reveal_strlit("feed_forward");
        reveal_strlit("FF");
    } else if i == 13 {
        reveal_strlit("in_proj");
        reveal_strlit("IP");
    } else if i == 14 {
        reveal_strlit("out_proj");
        reveal_strlit("OP");
    } else if i == 15 {
        reveal_strlit("linear_pos");
        reveal_strlit("LP");
    } else if i == 16 {
        reveal_strlit("bypass");
        reveal_strlit("BY");
    } else if i == 17 {
        reveal_strlit("downsample");
        reveal_strlit("DS");
    } else if i == 18 {
        reveal_strlit("convnext");
        reveal_strlit("CX");
    } else if i == 19 {
        reveal_strlit("output_linear");
        reveal_strlit("OL");
    } else {
        reveal_strlit("embedding");
        reveal_strlit("EMB");
    }
    let (pattern, with) = spec_replacement(i);
    vstd::utf8::is_ascii_chars_encode_utf8(pattern);
    vstd::utf8::is_ascii_chars_encode_utf8(with);
}

proof fn lemma_abbreviated_bytes(name: Seq<char>, n: int)
    requires
        0 <= n <= REPLACEMENT_COUNT,
    ensures
        name_bytes(abbreviated(name, n)) <= name_bytes(name),
    decreases n,
{
    if n > 0 {
        lemma_abbreviated_bytes(name, n - 1);
        lemma_replacements_shorten(n - 1);
        lemma_replaced_bytes(
            abbreviated(name, n - 1),
            spec_replacement(n - 1).0,
            spec_replacement(n - 1).1,
        );
    }
}

/// Compaction never makes a name take more bytes.
pub proof fn law_compaction_never_lengthens(name: Seq<char>)
    ensures
        name_bytes(compacted(name)) <= name_bytes(name),
{
    lemma_abbreviated_bytes(name, REPLACEMENT_COUNT as int);
}

/// A name without anything to abbreviate passes through.
pub proof fn law_plain_names_pass_through(name: Seq<char>)
    requires
        forall|i: int|
            0 <= i < REPLACEMENT_COUNT ==> !occurs(name, (#[trigger] spec_replacement(i)).0),
    ensures
        compacted(name) == name,
{
    lemma_plain_names(name, REPLACEMENT_COUNT as int);
}

proof fn lemma_plain_names(name: Seq<char>, n: int)
    requires
        0 <= n <= REPLACEMENT_COUNT,
        forall|i: int|
            0 <= i < REPLACEMENT_COUNT ==> !occurs(name, (#[trigger] spec_replacement(i)).0),
    ensures
        abbreviated(name, n) == name,
    decreases n,
{
    if n > 0 {
        lemma_plain_names(name, n - 1);
        assert(!occurs(name, spec_replacement(n - 1).0));
        chars::lemma_replaced_absent(name, spec_replacement(n - 1).0, spec_replacement(n - 1).1);
    }
}

/// Dimensions in a pack: those of a weight matrix or kernel are turned around.
pub open spec fn normalized_dims(name: Seq<char>, shape: Seq<u64>) -> Seq<u64> {
    if has_suffix(name, ".weight"@) && shape.len() >= 2 {
        shape.reverse()
    } else {
        shape
    }
}

/// Dimensions of a tensor in a pack.
pub fn normalize_xasr_weight_dims(target_name: &str, source_shape: &[u64]) -> (dims: Vec<u64>)
    ensures
        dims@ == normalized_dims(target_name@, source_shape@),
{
    let name = chars_of(target_name);
    let suffix = chars_of(".weight");
    let n = source_shape.len();
    let reversed = ends_with(name.as_slice(), suffix.as_slice()) && n >= 2;
    let mut dims: Vec<u64> = Vec::new();
    let mut i: usize = 0;
    while i < n
        invariant
            n == source_shape@.len(),
            i <= n,
            dims@.len() == i,
            reversed ==> forall|j: int| 0 <= j < i ==> dims@[j] == source_shape@[n - 1 - j],
            !reversed ==> forall|j: int| 0 <= j < i ==> dims@[j] == source_shape@[j],
        decreases n - i,
    {
        if reversed {
            dims.push(source_shape[n - 1 - i]);
        } else {
            dims.push(source_shape[i]);
        }
        i = i + 1;
    }
    assert(dims@ =~= normalized_dims(target_name@, source_shape@));
    dims
}

/// Turning dimensions around twice gives them back.
pub proof fn law_normalizing_twice_restores(name: Seq<char>, shape: Seq<u64>)
    ensures
        normalized_dims(name, normalized_dims(name, shape)) == shape,
{
    assert(normalized_dims(name, normalized_dims(name, shape)) =~= shape);
}

/// Tensors that a pack keeps as 32-bit floats: biases, norms, scales, bypasses,
/// the embedding table, and everything that is not a matrix.
pub open spec fn kept_f32(name: Seq<char>, dims: Seq<u64>) -> bool {
    ||| has_suffix(name, ".bias"@)
    ||| occurs(name, "norm"@)
    ||| occurs(name, "_scale"@)
    ||| occurs(name, "bypass"@)
    ||| name == "decoder.embedding.weight"@
    ||| dims.len() != 2
}

/// Whether a pack keeps a tensor as 32-bit floats.
pub fn xasr_tensor_is_f32(name: &str, dims: &[u64]) -> (result: bool)
    ensures
        result == kept_f32(name@, dims@),
{
    let text = chars_of(name);
    let bias = chars_of(".bias");
    let norm = chars_of("norm");
    let scale = chars_of("_scale");
    let bypass = chars_of("bypass");
    let embedding = chars_of("decoder.embedding.weight");
    let is_embedding = text.len() == embedding.len() && ends_with(
        text.as_slice(),
        embedding.as_slice(),
    );
    proof {
        if text@.len() == embedding@.len() {
            assert(text@.subrange(0, text@.len() as int) =~= text@);
        }
    }
    ends_with(text.as_slice(), bias.as_slice()) || contains(text.as_slice(), norm.as_slice())
        || contains(text.as_slice(), scale.as_slice()) || contains(
        text.as_slice(),
        bypass.as_slice(),
    ) || is_embedding || dims.len() != 2
}

/// How the matrices of a pack are stored.
#[derive(Clone, Copy, Debug, PartialEq, Eq, Structural)]
pub enum PackQuant {
    Fp16,
    Q8_0,
}

/// How the matrices of a pack are stored.
pub type XasrZipformerQuantizationMode = PackQuant;

/// How a tensor is stored.
#[derive(Clone, Copy, Debug, PartialEq, Eq, Structural)]
pub enum GgufWriteTensorType {
    F32,
    F16,
    Q8_0,
}

/// Whether a tensor may be quantized: a matrix of weights in a quantized pack.
pub open spec fn quantizable(
    name: Seq<char>,
    dims: Seq<u64>,
    force_f32: bool,
    quantization: PackQuant,
) -> bool {
    !force_f32 && quantization != PackQuant::Fp16 && has_suffix(name, ".weight"@) && dims.len()
        == 2
}

/// The type to which a tensor is quantized, if it is: what `classify` says of
/// the length of its rows.
pub fn quantized_tensor_type_for_xasr_tensor<
    F: Fn(u64, PackQuant) -> Option<GgufWriteTensorType>,
>(
    name: &str,
    dims: &[u64],
    force_f32: bool,
    quantization: PackQuant,
    classify: &F,
) -> (result: Option<GgufWriteTensorType>)
    requires
        quantizable(name@, dims@, force_f32, quantization) ==> call_requires(
            classify,
            (dims@[0], quantization),
        ),
    ensures
        if quantizable(name@, dims@, force_f32, quantization) {
            call_ensures(classify, (dims@[0], quantization), result)
        } else {
            result is None
        },
{
    if force_f32 {
        return None;
    }
    match quantization {
        PackQuant::Fp16 => return None,
        PackQuant::Q8_0 => {},
    }
    let text = chars_of(name);
    let suffix = chars_of(".weight");
    if !ends_with(text.as_slice(), suffix.as_slice()) || dims.len() != 2 {
        return None;
    }
    classify(dims[0], quantization)
}

/// Tensors that a pack keeps as 32-bit floats are not quantized.
pub proof fn law_sensitive_tensors_are_not_quantized(
    name: Seq<char>,
    dims: Seq<u64>,
    quantization: PackQuant,
)
    requires
        kept_f32(name, dims),
    ensures
        !quantizable(name, dims, kept_f32(name, dims), quantization),
{
}

} // verus!
