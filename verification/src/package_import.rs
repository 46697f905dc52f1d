//! Importing a local model source into a runtime pack.
//!
//! The files are read and written by an [`ImportHost`]; what the pack holds is
//! decided here.

use vstd::prelude::*;
use vstd::string::StringExecFns;
use crate::metadata_laws::{
    identifies, keys_apart, law_metadata_identifies_the_pack,
    law_metadata_reads_as_the_configuration, reads_as,
};
use crate::package_names::{
    compact_xasr_name, compacted, kept_f32, name_bytes, normalize_xasr_weight_dims,
    normalized_dims, quantizable, quantized_tensor_type_for_xasr_tensor, xasr_tensor_is_f32,
    GgufWriteTensorType, PackQuant, XasrZipformerQuantizationMode, GGUF_MAX_TENSOR_NAME,
};
use crate::package_tokens::{
    parse_tokens_txt, split_lines, symbol_of, tokens_refusal, validate_error, validated,
    LocalSourceImportError,
};
use crate::text;
use crate::text::decimal;

verus! {

/// What to import and where to.
#[derive(Clone, Debug)]
pub struct XasrZipformerImportRequest {
    pub source_root: String,
    pub output_root: String,
    pub model_id: String,
    pub quantization: XasrZipformerQuantizationMode,
}

/// What was imported.
#[derive(Clone, Debug, PartialEq, Eq)]
pub struct XasrZipformerImportResult {
    pub output_path: String,
    pub tensor_count: usize,
    pub blank_token_id: u32,
}

/// The architecture of a model: lists with one entry for each stack, and
/// dimensions of the decoder, joiner and tokenizer.
#[derive(Debug)]
pub struct XasrZipformerConfigJson {
    pub num_encoder_layers: Vec<u32>,
    pub encoder_dims: Vec<u32>,
    pub query_head_dims: Vec<u32>,
    pub value_head_dims: Vec<u32>,
    pub num_heads: Vec<u32>,
    pub cnn_module_kernels: Vec<u32>,
    pub left_context_len: Vec<u32>,
    pub downsampling_factors: Vec<u32>,
    pub feature_dim: u32,
    pub decode_chunk_len: u32,
    pub joiner_dim: u32,
    pub decoder_context_size: u32,
    pub vocab_size: u32,
    pub blank_id: u32,
}

/// The text of a list of the wrong length.
pub open spec fn list_length_text(field: Seq<char>, len: nat, stacks: nat) -> Seq<char> {
    "xasr-zipformer config '"@ + field + "' has "@ + decimal(len) + " entries, expected "@
        + decimal(stacks) + " (one per stack)"@
}

/// Why a list of a configuration is refused.
pub open spec fn list_refusal(field: Seq<char>, len: nat, stacks: nat) -> Option<Seq<char>> {
    if len != stacks {
        Some(list_length_text(field, len, stacks))
    } else {
        None
    }
}

/// Why a configuration is refused.
pub open spec fn config_refusal(config: XasrZipformerConfigJson) -> Option<Seq<char>> {
    let stacks = config.num_encoder_layers@.len();
    let dims = list_refusal("encoder_dims"@, config.encoder_dims@.len(), stacks);
    let query = list_refusal("query_head_dims"@, config.query_head_dims@.len(), stacks);
    let value = list_refusal("value_head_dims"@, config.value_head_dims@.len(), stacks);
    let heads = list_refusal("num_heads"@, config.num_heads@.len(), stacks);
    let kernels = list_refusal("cnn_module_kernels"@, config.cnn_module_kernels@.len(), stacks);
    let context = list_refusal("left_context_len"@, config.left_context_len@.len(), stacks);
    let factors = list_refusal(
        "downsampling_factors"@,
        config.downsampling_factors@.len(),
        stacks,
    );
    if stacks == 0 {
        Some("xasr-zipformer config num_encoder_layers must not be empty"@)
    } else if dims is Some {
        dims
    } else if query is Some {
        query
    } else if value is Some {
        value
    } else if heads is Some {
        heads
    } else if kernels is Some {
        kernels
    } else if context is Some {
        context
    } else if factors is Some {
        factors
    } else if config.vocab_size == 0 {
        Some("xasr-zipformer config vocab_size must be > 0"@)
    } else if config.blank_id >= config.vocab_size {
        Some(
            "xasr-zipformer config blank_id "@ + decimal(config.blank_id as nat)
                + " is out of range for vocab_size "@ + decimal(config.vocab_size as nat),
        )
    } else {
        None
    }
}

fn check_config_list(field: &str, len: usize, stacks: usize) -> (result: Result<
    (),
    LocalSourceImportError,
>)
    ensures
        validated(result, list_refusal(field@, len as nat, stacks as nat)),
{
    if len != stacks {
        let mut reason = text::copy_text("xasr-zipformer config '");
        reason.append(field);
        reason.append("' has ");
        text::push_number(&mut reason, len);
        reason.append(" entries, expected ");
        text::push_number(&mut reason, stacks);
        reason.append(" (one per stack)");
        return Err(validate_error(reason));
    }
    Ok(())
}

/// Checks a configuration.
pub fn validate_config(config: &XasrZipformerConfigJson) -> (result: Result<
    (),
    LocalSourceImportError,
>)
    ensures
        validated(result, config_refusal(*config)),
{
    let stacks = config.num_encoder_layers.len();
    if stacks == 0 {
        return Err(
            validate_error(
                text::copy_text("xasr-zipformer config num_encoder_layers must not be empty"),
            ),
        );
    }
    check_config_list("encoder_dims", config.encoder_dims.len(), stacks)?;
    check_config_list("query_head_dims", config.query_head_dims.len(), stacks)?;
    check_config_list("value_head_dims", config.value_head_dims.len(), stacks)?;
    check_config_list("num_heads", config.num_heads.len(), stacks)?;
    check_config_list("cnn_module_kernels", config.cnn_module_kernels.len(), stacks)?;
    check_config_list("left_context_len", config.left_context_len.len(), stacks)?;
    check_config_list("downsampling_factors", config.downsampling_factors.len(), stacks)?;
    if config.vocab_size == 0 {
        return Err(
            validate_error(text::copy_text("xasr-zipformer config vocab_size must be > 0")),
        );
    }
    if config.blank_id >= config.vocab_size {
        let mut reason = text::copy_text("xasr-zipformer config blank_id ");
        text::push_number(&mut reason, config.blank_id as usize);
        reason.append(" is out of range for vocab_size ");
        text::push_number(&mut reason, config.vocab_size as usize);
        return Err(validate_error(reason));
    }
    Ok(())
}

/// An accepted configuration has an entry for each stack in every list, and its
/// blank token is one of its tokens.
pub proof fn law_accepted_config_covers_every_stack(config: XasrZipformerConfigJson)
    requires
        config_refusal(config) is None,
    ensures
        config.num_encoder_layers@.len() > 0,
        config.encoder_dims@.len() == config.num_encoder_layers@.len(),
        config.query_head_dims@.len() == config.num_encoder_layers@.len(),
        config.value_head_dims@.len() == config.num_encoder_layers@.len(),
        config.num_heads@.len() == config.num_encoder_layers@.len(),
        config.cnn_module_kernels@.len() == config.num_encoder_layers@.len(),
        config.left_context_len@.len() == config.num_encoder_layers@.len(),
        config.downsampling_factors@.len() == config.num_encoder_layers@.len(),
        config.blank_id < config.vocab_size,
{
}

/// Numbers in decimal notation with commas between them.
pub open spec fn comma_joined(values: Seq<u32>) -> Seq<char>
    decreases values.len(),
{
    if values.len() == 0 {
        Seq::empty()
    } else if values.len() == 1 {
        decimal(values[0] as nat)
    } else {
        comma_joined(values.drop_last()) + ","@ + decimal(values.last() as nat)
    }
}

proof fn lemma_comma_joined_len(values: Seq<u32>)
    requires
        values.len() > 0,
    ensures
        comma_joined(values).len() > 0,
{
    text::lemma_decimal_len(values[0] as nat);
    text::lemma_decimal_len(values.last() as nat);
}

/// A number at the end of a text, after a comma, can be read off.
proof fn lemma_number_after_comma(a: nat, b: nat, head_a: Seq<char>, head_b: Seq<char>)
    requires
        head_a + ","@ + decimal(a) == head_b + ","@ + decimal(b),
    ensures
        a == b,
        head_a == head_b,
{
    reveal_strlit(",");
    let whole = head_a + ","@ + decimal(a);
    let other = head_b + ","@ + decimal(b);
    let la = head_a.len() as int;
    let lb = head_b.len() as int;
    assert(whole[la] == ',');
    assert(other[lb] == ',');
    assert(whole.len() == la + 1 + decimal(a).len());
    assert(other.len() == lb + 1 + decimal(b).len());
    if la < lb {
        text::lemma_decimal_digits(a, lb - la - 1);
        assert(whole[lb] == decimal(a)[lb - la - 1]);
    } else if lb < la {
        text::lemma_decimal_digits(b, la - lb - 1);
        assert(other[la] == decimal(b)[la - lb - 1]);
    }
    assert(head_a =~= whole.take(la));
    assert(head_b =~= other.take(lb));
    assert(decimal(a) =~= whole.skip(la + 1));
    assert(decimal(b) =~= other.skip(lb + 1));
    text::law_decimal_is_injective(a, b);
}

/// A number holds no comma.
proof fn lemma_number_is_no_list(n: nat, head: Seq<char>, last: nat)
    ensures
        decimal(n) != head + ","@ + decimal(last),
{
    reveal_strlit(",");
    let list = head + ","@ + decimal(last);
    assert(list[head.len() as int] == ',');
    if decimal(n) == list {
        text::lemma_decimal_digits(n, head.len() as int);
    }
}

/// A list of numbers can be read back from its text: different lists have
/// different texts.
pub proof fn law_comma_lists_can_be_read_back(a: Seq<u32>, b: Seq<u32>)
    requires
        comma_joined(a) == comma_joined(b),
    ensures
        a == b,
    decreases a.len(),
{
    if a.len() == 0 {
        if b.len() > 0 {
            lemma_comma_joined_len(b);
        }
        assert(a =~= b);
    } else if b.len() == 0 {
        lemma_comma_joined_len(a);
    } else if a.len() == 1 && b.len() == 1 {
        text::law_decimal_is_injective(a[0] as nat, b[0] as nat);
        assert(a =~= b);
    } else if a.len() == 1 {
        lemma_number_is_no_list(a[0] as nat, comma_joined(b.drop_last()), b.last() as nat);
    } else if b.len() == 1 {
        lemma_number_is_no_list(b[0] as nat, comma_joined(a.drop_last()), a.last() as nat);
    } else {
        lemma_number_after_comma(
            a.last() as nat,
            b.last() as nat,
            comma_joined(a.drop_last()),
            comma_joined(b.drop_last()),
        );
        law_comma_lists_can_be_read_back(a.drop_last(), b.drop_last());
        assert(a =~= a.drop_last().push(a.last()));
        assert(b =~= b.drop_last().push(b.last()));
    }
}

/// Numbers in decimal notation with commas between them.
pub fn join_u32(values: &[u32]) -> (joined: String)
    ensures
        joined@ == comma_joined(values@),
{
    let mut joined = String::new();
    let mut i: usize = 0;
    assert(values@.take(0) =~= Seq::<u32>::empty());
    assert(joined@ =~= comma_joined(values@.take(0)));
    while i < values.len()
        invariant
            i <= values@.len(),
            joined@ == comma_joined(values@.take(i as int)),
        decreases values@.len() - i,
    {
        if i > 0 {
            joined.append(",");
        }
        text::push_number(&mut joined, values[i] as usize);
        proof {
            assert(values@.take(i + 1).drop_last() =~= values@.take(i as int));
            assert(joined@ =~= comma_joined(values@.take(i + 1)));
        }
        i = i + 1;
    }
    assert(values@.take(i as int) =~= values@);
    joined
}

/// A value of the metadata of a pack.
#[derive(Debug)]
pub enum GgufWriteValue {
    Text(String),
    U32(u32),
    TextArray(Vec<String>),
}

/// A value of the metadata of a pack by its contents.
#[verifier::ext_equal]
pub enum MetadataView {
    Text(Seq<char>),
    U32(u32),
    TextArray(Seq<Seq<char>>),
}

impl View for GgufWriteValue {
    type V = MetadataView;

    open spec fn view(&self) -> MetadataView {
        match *self {
            GgufWriteValue::Text(value) => MetadataView::Text(value@),
            GgufWriteValue::U32(value) => MetadataView::U32(value),
            GgufWriteValue::TextArray(values) => MetadataView::TextArray(texts(values@)),
        }
    }
}

/// Texts by their contents.
pub open spec fn texts(values: Seq<String>) -> Seq<Seq<char>> {
    values.map_values(|value: String| value@)
}

/// An entry of the metadata of a pack.
#[derive(Debug)]
pub struct MetadataEntry {
    pub key: String,
    pub value: GgufWriteValue,
}

/// The keys and identifiers under which the runtime finds packs of this family.
#[derive(Debug)]
pub struct PackIdentity {
    pub package_version_key: String,
    pub package_version: String,
    pub model_family_key: String,
    pub model_family: String,
    pub model_architecture_key: String,
    pub architecture_id: String,
    pub audio_frontend_key: String,
    pub audio_frontend_id: String,
    pub decode_policy_key: String,
    pub decode_policy_id: String,
    pub tokenizer_key: String,
    pub tokenizer_id: String,
}

/// A text entry.
pub open spec fn text_entry(key: Seq<char>, value: Seq<char>) -> (Seq<char>, MetadataView) {
    (key, MetadataView::Text(value))
}

/// The metadata of a pack, in the order in which it is put together.
pub open spec fn pack_metadata(
    identity: PackIdentity,
    config: XasrZipformerConfigJson,
    model_id: Seq<char>,
    tokens: Seq<Seq<char>>,
) -> Seq<(Seq<char>, MetadataView)> {
    seq![
        text_entry("general.architecture"@, identity.architecture_id@),
        text_entry(identity.package_version_key@, identity.package_version@),
        text_entry(identity.model_family_key@, identity.model_family@),
        text_entry(identity.model_architecture_key@, identity.architecture_id@),
        text_entry(identity.audio_frontend_key@, identity.audio_frontend_id@),
        text_entry(identity.decode_policy_key@, identity.decode_policy_id@),
        text_entry(identity.tokenizer_key@, identity.tokenizer_id@),
        text_entry("openasr.model.id"@, model_id),
        text_entry("xasr.num_encoder_layers"@, comma_joined(config.num_encoder_layers@)),
        text_entry("xasr.encoder_dims"@, comma_joined(config.encoder_dims@)),
        text_entry("xasr.query_head_dims"@, comma_joined(config.query_head_dims@)),
        text_entry("xasr.value_head_dims"@, comma_joined(config.value_head_dims@)),
        text_entry("xasr.num_heads"@, comma_joined(config.num_heads@)),
        text_entry("xasr.cnn_module_kernels"@, comma_joined(config.cnn_module_kernels@)),
        text_entry("xasr.left_context_len"@, comma_joined(config.left_context_len@)),
        text_entry("xasr.downsampling_factors"@, comma_joined(config.downsampling_factors@)),
        ("xasr.num_stacks"@, MetadataView::U32(config.num_encoder_layers@.len() as u32)),
        ("xasr.feature_dim"@, MetadataView::U32(config.feature_dim)),
        ("xasr.decode_chunk_len"@, MetadataView::U32(config.decode_chunk_len)),
        ("xasr.joiner_dim"@, MetadataView::U32(config.joiner_dim)),
        ("xasr.decoder_context_size"@, MetadataView::U32(config.decoder_context_size)),
        ("xasr.vocab_size"@, MetadataView::U32(config.vocab_size)),
        ("xasr.blank_id"@, MetadataView::U32(config.blank_id)),
        ("tokenizer.ggml.tokens"@, MetadataView::TextArray(tokens)),
    ]
}

/// Entries by their contents.
pub open spec fn entries_view(entries: Seq<MetadataEntry>) -> Seq<(Seq<char>, MetadataView)> {
    entries.map_values(|entry: MetadataEntry| (entry.key@, entry.value@))
}

fn put_str(entries: &mut Vec<MetadataEntry>, key: &str, value: &str)
    ensures
        entries_view(final(entries)@) == entries_view(old(entries)@).push(
            text_entry(key@, value@),
        ),
{
    entries.push(
        MetadataEntry {
            key: text::copy_text(key),
            value: GgufWriteValue::Text(text::copy_text(value)),
        },
    );
    assert(entries_view(entries@) =~= entries_view(old(entries)@).push(text_entry(key@, value@)));
}

fn put_list(entries: &mut Vec<MetadataEntry>, key: &str, values: &Vec<u32>)
    ensures
        entries_view(final(entries)@) == entries_view(old(entries)@).push(
            text_entry(key@, comma_joined(values@)),
        ),
{
    let joined = join_u32(values.as_slice());
    put_str(entries, key, joined.as_str());
}

fn put_u32(entries: &mut Vec<MetadataEntry>, key: &str, value: u32)
    ensures
        entries_view(final(entries)@) == entries_view(old(entries)@).push(
            (key@, MetadataView::U32(value)),
        ),
{
    entries.push(MetadataEntry { key: text::copy_text(key), value: GgufWriteValue::U32(value) });
    assert(entries_view(entries@) =~= entries_view(old(entries)@).push(
        (key@, MetadataView::U32(value)),
    ));
}

fn copy_texts(values: &[String]) -> (copy: Vec<String>)
    ensures
        texts(copy@) == texts(values@),
{
    let mut copy: Vec<String> = Vec::new();
    let mut i: usize = 0;
    while i < values.len()
        invariant
            i <= values@.len(),
            copy@.len() == i,
            forall|j: int| 0 <= j < i ==> (#[trigger] copy@[j])@ == values@[j]@,
        decreases values@.len() - i,
    {
        copy.push(text::copy_text(values[i].as_str()));
        i = i + 1;
    }
    assert(texts(copy@) =~= texts(values@));
    copy
}

/// The metadata of a pack.
pub fn xasr_runtime_gguf_metadata(
    identity: &PackIdentity,
    config: &XasrZipformerConfigJson,
    request: &XasrZipformerImportRequest,
    vocab_tokens: &[String],
) -> (entries: Vec<MetadataEntry>)
    ensures
        entries_view(entries@) == pack_metadata(
            *identity,
            *config,
            request.model_id@,
            texts(vocab_tokens@),
        ),
        keys_apart(*identity) ==> reads_as(entries_view(entries@), *config) && identifies(
            entries_view(entries@),
            *identity,
            request.model_id@,
            texts(vocab_tokens@),
        ),
{
    let mut entries: Vec<MetadataEntry> = Vec::new();
    put_str(&mut entries, "general.architecture", identity.architecture_id.as_str());
    put_str(
        &mut entries,
        identity.package_version_key.as_str(),
        identity.package_version.as_str(),
    );
    put_str(&mut entries, identity.model_family_key.as_str(), identity.model_family.as_str());
    put_str(
        &mut entries,
        identity.model_architecture_key.as_str(),
        identity.architecture_id.as_str(),
    );
    put_str(
        &mut entries,
        identity.audio_frontend_key.as_str(),
        identity.audio_frontend_id.as_str(),
    );
    put_str(
        &mut entries,
        identity.decode_policy_key.as_str(),
        identity.decode_policy_id.as_str(),
    );
    put_str(&mut entries, identity.tokenizer_key.as_str(), identity.tokenizer_id.as_str());
    put_str(&mut entries, "openasr.model.id", request.model_id.as_str());
    put_list(&mut entries, "xasr.num_encoder_layers", &config.num_encoder_layers);
    put_list(&mut entries, "xasr.encoder_dims", &config.encoder_dims);
    put_list(&mut entries, "xasr.query_head_dims", &config.query_head_dims);
    put_list(&mut entries, "xasr.value_head_dims", &config.value_head_dims);
    put_list(&mut entries, "xasr.num_heads", &config.num_heads);
    put_list(&mut entries, "xasr.cnn_module_kernels", &config.cnn_module_kernels);
    put_list(&mut entries, "xasr.left_context_len", &config.left_context_len);
    put_list(&mut entries, "xasr.downsampling_factors", &config.downsampling_factors);
    put_u32(&mut entries, "xasr.num_stacks", config.num_encoder_layers.len() as u32);
    put_u32(&mut entries, "xasr.feature_dim", config.feature_dim);
    put_u32(&mut entries, "xasr.decode_chunk_len", config.decode_chunk_len);
    put_u32(&mut entries, "xasr.joiner_dim", config.joiner_dim);
    put_u32(&mut entries, "xasr.decoder_context_size", config.decoder_context_size);
    put_u32(&mut entries, "xasr.vocab_size", config.vocab_size);
    put_u32(&mut entries, "xasr.blank_id", config.blank_id);
    let tokens = copy_texts(vocab_tokens);
    let ghost before = entries@;
    entries.push(
        MetadataEntry {
            key: text::copy_text("tokenizer.ggml.tokens"),
            value: GgufWriteValue::TextArray(tokens),
        },
    );
    proof {
        assert(entries_view(entries@) =~= entries_view(before).push(
            ("tokenizer.ggml.tokens"@, MetadataView::TextArray(texts(tokens@))),
        ));
        assert(entries_view(entries@) =~= pack_metadata(
            *identity,
            *config,
            request.model_id@,
            texts(vocab_tokens@),
        ));
        if keys_apart(*identity) {
            let tokens = texts(vocab_tokens@);
            law_metadata_reads_as_the_configuration(*identity, *config, request.model_id@, tokens);
            law_metadata_identifies_the_pack(*identity, *config, request.model_id@, tokens);
        }
    }
    entries
}

/// A tensor of the source.
#[derive(Debug)]
pub struct SourceTensor {
    pub name: String,
    pub dtype: String,
    pub shape: Vec<u64>,
}

/// A tensor of a pack.
#[derive(Debug)]
pub struct GgufWriteTensor {
    pub name: String,
    pub dims: Vec<u64>,
    pub tensor_type: GgufWriteTensorType,
    pub data: Vec<u8>,
}

/// Reads the source and converts tensor data.
pub trait ImportHost {
    /// Checks that a pack may be written to this path.
    fn check_output(&self, output_root: &String) -> Result<(), LocalSourceImportError>;

    /// Reads `config.json`.
    fn read_config(&self, source_root: &String) -> Result<
        XasrZipformerConfigJson,
        LocalSourceImportError,
    >;

    /// Reads the bytes of `tokens.txt`.
    fn read_tokens(&self, source_root: &String) -> Result<Vec<u8>, LocalSourceImportError>;

    /// Opens `model.safetensors` and lists its tensors.
    fn open_tensors(
        &self,
        source_root: &String,
    ) -> Result<Vec<SourceTensor>, LocalSourceImportError>;

    /// The data of a tensor as 32-bit float bit patterns.
    fn decode_f32(&self, tensor: &SourceTensor) -> Result<Vec<u32>, LocalSourceImportError>;

    /// The data of a tensor as 16-bit float bit patterns.
    fn decode_f16_bits(&self, tensor: &SourceTensor) -> Result<Vec<u16>, LocalSourceImportError>;

    /// The type to which rows of this length are quantized, if they are.
    fn classify(&self, row_len: u64, quantization: PackQuant) -> Option<GgufWriteTensorType>;

    /// Quantized data.
    fn quantize(&self, tensor_type: GgufWriteTensorType, dims: &[u64], values: &[u32]) -> Result<
        Vec<u8>,
        String,
    >;
}

/// Writes packs, and reads them back.
pub trait PackWriter: Sized {
    /// Writes a pack.
    fn write_pack(
        &mut self,
        output_root: &String,
        metadata: &Vec<MetadataEntry>,
        tensors: &Vec<GgufWriteTensor>,
    ) -> Result<(), String>;

    /// Reads the tensor index of a pack back and counts its tensors.
    fn count_tensors(&self, output_root: &String) -> Result<usize, String>;
}

/// The bytes of a 32-bit number, the lowest first.
pub open spec fn le_bytes_32(value: u32) -> Seq<u8> {
    seq![
        (value % 256) as u8,
        (value / 256 % 256) as u8,
        (value / 65536 % 256) as u8,
        (value / 16777216) as u8,
    ]
}

/// The bytes of 32-bit numbers, each the lowest first.
pub open spec fn f32_bytes(values: Seq<u32>) -> Seq<u8>
    decreases values.len(),
{
    if values.len() == 0 {
        Seq::empty()
    } else {
        f32_bytes(values.drop_last()) + le_bytes_32(values.last())
    }
}

/// The bytes of 16-bit numbers, each the lowest first.
pub open spec fn f16_bytes(values: Seq<u16>) -> Seq<u8>
    decreases values.len(),
{
    if values.len() == 0 {
        Seq::empty()
    } else {
        f16_bytes(values.drop_last()) + seq![
            (values.last() % 256) as u8,
            (values.last() / 256) as u8,
        ]
    }
}

/// The bytes of float bit patterns.
pub fn encode_f32_le(values: &[u32]) -> (bytes: Vec<u8>)
    ensures
        bytes@ == f32_bytes(values@),
{
    let mut bytes: Vec<u8> = Vec::new();
    let mut i: usize = 0;
    assert(values@.take(0) =~= Seq::<u32>::empty());
    while i < values.len()
        invariant
            i <= values@.len(),
            bytes@ == f32_bytes(values@.take(i as int)),
        decreases values@.len() - i,
    {
        let value = values[i];
        bytes.push((value % 256) as u8);
        bytes.push((value / 256 % 256) as u8);
        bytes.push((value / 65536 % 256) as u8);
        bytes.push((value / 16777216) as u8);
        proof {
            assert(values@.take(i + 1).drop_last() =~= values@.take(i as int));
            assert(bytes@ =~= f32_bytes(values@.take(i + 1)));
        }
        i = i + 1;
    }
    assert(values@.take(i as int) =~= values@);
    bytes
}

/// The bytes of 16-bit float bit patterns.
pub fn encode_f16_bits_le(values: &[u16]) -> (bytes: Vec<u8>)
    ensures
        bytes@ == f16_bytes(values@),
{
    let mut bytes: Vec<u8> = Vec::new();
    let mut i: usize = 0;
    assert(values@.take(0) =~= Seq::<u16>::empty());
    while i < values.len()
        invariant
            i <= values@.len(),
            bytes@ == f16_bytes(values@.take(i as int)),
        decreases values@.len() - i,
    {
        let value = values[i];
        bytes.push((value % 256) as u8);
        bytes.push((value / 256) as u8);
        proof {
            assert(values@.take(i + 1).drop_last() =~= values@.take(i as int));
            assert(bytes@ =~= f16_bytes(values@.take(i + 1)));
        }
        i = i + 1;
    }
    assert(values@.take(i as int) =~= values@);
    bytes
}

/// One of the first `n` tensors is held under this name.
pub open spec fn name_taken(tensors: Seq<SourceTensor>, n: int, name: Seq<char>) -> bool {
    exists|i: int| 0 <= i < n && compacted((#[trigger] tensors[i]).name@) == name
}

/// Why the name of tensor `index` is refused.
pub open spec fn name_refusal(tensors: Seq<SourceTensor>, index: int) -> Option<Seq<char>> {
    let original = tensors[index].name@;
    let target = compacted(original);
    if name_bytes(target) > GGUF_MAX_TENSOR_NAME {
        Some(
            "xasr-zipformer compacted name '"@ + target + "' ("@ + decimal(
                name_bytes(target) as nat,
            ) + " bytes) exceeds the GGUF 63-byte limit (from '"@ + original + "')"@,
        )
    } else if name_taken(tensors, index, target) {
        Some(
            "xasr-zipformer name compaction collided on '"@ + target + "' (from '"@ + original
                + "')"@,
        )
    } else {
        None
    }
}

/// The failure of a quantization.
pub open spec fn quantization_text(
    name: Seq<char>,
    tensor_type: GgufWriteTensorType,
    error: Seq<char>,
) -> Seq<char> {
    "xasr-zipformer quantization failed for '"@ + name + "' ("@ + stored_type_name(tensor_type) + "): "@
        + error
}

/// The name of a tensor type.
pub open spec fn stored_type_name(tensor_type: GgufWriteTensorType) -> Seq<char> {
    match tensor_type {
        GgufWriteTensorType::F32 => "F32"@,
        GgufWriteTensorType::F16 => "F16"@,
        GgufWriteTensorType::Q8_0 => "Q8_0"@,
    }
}

fn type_text(tensor_type: GgufWriteTensorType) -> (name: &'static str)
    ensures
        name@ == stored_type_name(tensor_type),
{
    match tensor_type {
        GgufWriteTensorType::F32 => "F32",
        GgufWriteTensorType::F16 => "F16",
        GgufWriteTensorType::Q8_0 => "Q8_0",
    }
}

/// `written` is what the pack holds of `tensor`, its data as the host converts
/// it.
pub open spec fn written_as<H: ImportHost>(
    host: &H,
    tensor: SourceTensor,
    quantization: PackQuant,
    written: GgufWriteTensor,
) -> bool {
    let dims = normalized_dims(tensor.name@, tensor.shape@);
    let force_f32 = kept_f32(tensor.name@, dims);
    let may_quantize = quantizable(tensor.name@, dims, force_f32, quantization);
    &&& written.name@ == compacted(tensor.name@)
    &&& written.dims@ == dims
    &&& if may_quantize && call_ensures(
        H::classify,
        (host, dims[0], quantization),
        Some(written.tensor_type),
    ) && quantized_as(host, tensor, dims, written) {
        true
    } else if force_f32 {
        &&& written.tensor_type == GgufWriteTensorType::F32
        &&& stored_as_f32(host, tensor, written)
    } else {
        &&& may_quantize ==> call_ensures(H::classify, (host, dims[0], quantization), None)
        &&& written.tensor_type == GgufWriteTensorType::F16
        &&& stored_as_f16(host, tensor, written)
    }
}

/// The data is what the host makes of the decoded floats.
pub open spec fn quantized_as<H: ImportHost>(
    host: &H,
    tensor: SourceTensor,
    dims: Seq<u64>,
    written: GgufWriteTensor,
) -> bool {
    exists|values: Vec<u32>, shape: &[u64], slice: &[u32]|
        #[trigger] call_ensures(
            H::decode_f32,
            (host, &tensor),
            Ok::<Vec<u32>, LocalSourceImportError>(values),
        ) && shape@ == dims && slice@ == values@ && #[trigger] call_ensures(
            H::quantize,
            (host, written.tensor_type, shape, slice),
            Ok::<Vec<u8>, String>(written.data),
        )
}

/// The data is the bytes of the decoded floats.
pub open spec fn stored_as_f32<H: ImportHost>(
    host: &H,
    tensor: SourceTensor,
    written: GgufWriteTensor,
) -> bool {
    exists|values: Vec<u32>|
        #[trigger] call_ensures(
            H::decode_f32,
            (host, &tensor),
            Ok::<Vec<u32>, LocalSourceImportError>(values),
        ) && written.data@ == f32_bytes(values@)
}

/// The data is the bytes of the decoded 16-bit floats.
pub open spec fn stored_as_f16<H: ImportHost>(
    host: &H,
    tensor: SourceTensor,
    written: GgufWriteTensor,
) -> bool {
    exists|values: Vec<u16>|
        #[trigger] call_ensures(
            H::decode_f16_bits,
            (host, &tensor),
            Ok::<Vec<u16>, LocalSourceImportError>(values),
        ) && written.data@ == f16_bytes(values@)
}

/// The decoded floats of `tensor` are not quantized to this type, and `error` says why.
pub open spec fn quantization_failed<H: ImportHost>(
    host: &H,
    tensor: SourceTensor,
    dims: Seq<u64>,
    tensor_type: GgufWriteTensorType,
    error: LocalSourceImportError,
) -> bool {
    exists|values: Vec<u32>, shape: &[u64], slice: &[u32], reason: String|
        #[trigger] call_ensures(
            H::decode_f32,
            (host, &tensor),
            Ok::<Vec<u32>, LocalSourceImportError>(values),
        ) && shape@ == dims && slice@ == values@ && #[trigger] call_ensures(
            H::quantize,
            (host, tensor_type, shape, slice),
            Err::<Vec<u8>, String>(reason),
        ) && error.is_validation(quantization_text(tensor.name@, tensor_type, reason@))
}

/// `error` is what the host, or a quantization, said of `tensor`: of its floats where it
/// is quantized or kept as floats, else of its 16-bit floats.
pub open spec fn conversion_failed<H: ImportHost>(
    host: &H,
    tensor: SourceTensor,
    quantization: PackQuant,
    error: LocalSourceImportError,
) -> bool {
    let dims = normalized_dims(tensor.name@, tensor.shape@);
    let force_f32 = kept_f32(tensor.name@, dims);
    let may_quantize = quantizable(tensor.name@, dims, force_f32, quantization);
    let undecoded = call_ensures(
        H::decode_f32,
        (host, &tensor),
        Err::<Vec<u32>, LocalSourceImportError>(error),
    );
    ||| may_quantize && exists|tensor_type: GgufWriteTensorType|
        #[trigger] call_ensures(H::classify, (host, dims[0], quantization), Some(tensor_type)) && (
        undecoded || quantization_failed(host, tensor, dims, tensor_type, error))
    ||| force_f32 && undecoded
    ||| !force_f32 && (may_quantize ==> call_ensures(
        H::classify,
        (host, dims[0], quantization),
        None,
    )) && call_ensures(
        H::decode_f16_bits,
        (host, &tensor),
        Err::<Vec<u16>, LocalSourceImportError>(error),
    )
}

/// Converts one tensor.
#[verifier::spinoff_prover]
fn convert_tensor<H: ImportHost>(
    host: &H,
    tensor: &SourceTensor,
    target_name: String,
    quantization: PackQuant,
) -> (result: Result<GgufWriteTensor, LocalSourceImportError>)
    requires
        target_name@ == compacted(tensor.name@),
    ensures
        match result {
            Ok(written) => written_as(host, *tensor, quantization, written),
            Err(error) => conversion_failed(host, *tensor, quantization, error),
        },
{
    let original = tensor.name.as_str();
    let dims = normalize_xasr_weight_dims(original, tensor.shape.as_slice());
    let force_f32 = xasr_tensor_is_f32(original, dims.as_slice());
    let classify = |row_len: u64, mode: PackQuant| -> (stored: Option<GgufWriteTensorType>)
        ensures
            call_ensures(H::classify, (host, row_len, mode), stored),
        { host.classify(row_len, mode) };
    let quantized = quantized_tensor_type_for_xasr_tensor(
        original,
        dims.as_slice(),
        force_f32,
        quantization,
        &classify,
    );
    assert(quantizable(tensor.name@, dims@, force_f32, quantization) ==> call_ensures(
        H::classify,
        (host, dims@[0], quantization),
        quantized,
    ));
    match quantized {
        Some(tensor_type) => {
            let values = host.decode_f32(tensor)?;
            let shape = dims.as_slice();
            let slice = values.as_slice();
            match host.quantize(tensor_type, shape, slice) {
                Ok(data) => {
                    let ghost shown_shape = shape;
                    let ghost shown_slice = slice;
                    let written = GgufWriteTensor { name: target_name, dims, tensor_type, data };
                    assert(quantized_as(host, *tensor, written.dims@, written)) by {
                        assert(call_ensures(
                            H::quantize,
                            (host, written.tensor_type, shown_shape, shown_slice),
                            Ok::<Vec<u8>, String>(written.data),
                        ));
                        assert(call_ensures(
                            H::decode_f32,
                            (host, tensor),
                            Ok::<Vec<u32>, LocalSourceImportError>(values),
                        ));
                    }
                    Ok(written)
                },
                Err(error) => {
                    let mut reason = text::copy_text("xasr-zipformer quantization failed for '");
                    reason.append(original);
                    reason.append("' (");
                    reason.append(type_text(tensor_type));
                    reason.append("): ");
                    reason.append(error.as_str());
                    let failed = validate_error(reason);
                    proof {
                        let shown_shape = shape;
                        let shown_slice = slice;
                        assert(call_ensures(
                            H::decode_f32,
                            (host, tensor),
                            Ok::<Vec<u32>, LocalSourceImportError>(values),
                        ));
                        assert(call_ensures(
                            H::quantize,
                            (host, tensor_type, shown_shape, shown_slice),
                            Err::<Vec<u8>, String>(error),
                        ));
                        assert(quantization_failed(host, *tensor, dims@, tensor_type, failed));
                    }
                    Err(failed)
                },
            }
        },
        None => if force_f32 {
            let values = host.decode_f32(tensor)?;
            let data = encode_f32_le(values.as_slice());
            let written = GgufWriteTensor {
                name: target_name,
                dims,
                tensor_type: GgufWriteTensorType::F32,
                data,
            };
            assert(stored_as_f32(host, *tensor, written)) by {
                assert(call_ensures(
                    H::decode_f32,
                    (host, tensor),
                    Ok::<Vec<u32>, LocalSourceImportError>(values),
                ));
            }
            Ok(written)
        } else {
            let bits = host.decode_f16_bits(tensor)?;
            let data = encode_f16_bits_le(bits.as_slice());
            let written = GgufWriteTensor {
                name: target_name,
                dims,
                tensor_type: GgufWriteTensorType::F16,
                data,
            };
            assert(stored_as_f16(host, *tensor, written)) by {
                assert(call_ensures(
                    H::decode_f16_bits,
                    (host, tensor),
                    Ok::<Vec<u16>, LocalSourceImportError>(bits),
                ));
            }
            Ok(written)
        },
    }
}

fn is_taken(written: &Vec<GgufWriteTensor>, name: &String) -> (result: bool)
    ensures
        result == exists|i: int| 0 <= i < written@.len() && (#[trigger] written@[i]).name@ == name@,
{
    let mut i: usize = 0;
    while i < written.len()
        invariant
            i <= written@.len(),
            forall|j: int| 0 <= j < i ==> (#[trigger] written@[j]).name@ != name@,
        decreases written@.len() - i,
    {
        if written[i].name == *name {
            return true;
        }
        i = i + 1;
    }
    false
}

/// The first `n` names are accepted.
pub open spec fn names_accepted(tensors: Seq<SourceTensor>, n: int) -> bool {
    forall|i: int| 0 <= i < n ==> #[trigger] name_refusal(tensors, i) is None
}

/// What can come of converting the tensors of a source.
pub open spec fn tensors_outcome<H: ImportHost>(
    host: &H,
    tensors: Seq<SourceTensor>,
    quantization: PackQuant,
    result: Result<Vec<GgufWriteTensor>, LocalSourceImportError>,
) -> bool {
    match result {
        Ok(written) => {
            &&& tensors.len() > 0
            &&& names_accepted(tensors, tensors.len() as int)
            &&& written@.len() == tensors.len()
            &&& forall|i: int|
                0 <= i < tensors.len() ==> written_as(
                    host,
                    tensors[i],
                    quantization,
                    #[trigger] written@[i],
                )
        },
        Err(error) => {
            ||| tensors.len() == 0 && error.is_validation(
                "xasr-zipformer source produced no tensors"@,
            )
            ||| exists|k: int|
                0 <= k < tensors.len() && names_accepted(tensors, k) && (match #[trigger] name_refusal(
                    tensors,
                    k,
                ) {
                    Some(reason) => error.is_validation(reason),
                    None => conversion_failed(host, tensors[k], quantization, error),
                })
        },
    }
}

fn name_error(target: &str, original: &str, collided: bool) -> (error: LocalSourceImportError)
    ensures
        collided ==> error.is_validation(
            "xasr-zipformer name compaction collided on '"@ + target@ + "' (from '"@ + original@
                + "')"@,
        ),
        !collided ==> error.is_validation(
            "xasr-zipformer compacted name '"@ + target@ + "' ("@ + decimal(
                name_bytes(target@) as nat,
            ) + " bytes) exceeds the GGUF 63-byte limit (from '"@ + original@ + "')"@,
        ),
{
    let mut reason = text::copy_text(
        if collided {
            "xasr-zipformer name compaction collided on '"
        } else {
            "xasr-zipformer compacted name '"
        },
    );
    reason.append(target);
    if collided {
        reason.append("' (from '");
    } else {
        reason.append("' (");
        text::push_number(&mut reason, byte_len(target));
        reason.append(" bytes) exceeds the GGUF 63-byte limit (from '");
    }
    reason.append(original);
    reason.append("')");
    validate_error(reason)
}

fn byte_len(name: &str) -> (len: usize)
    ensures
        len == name_bytes(name@),
{
    name.as_bytes().len()
}

/// Converts the tensors of a source, in their order.
#[verifier::spinoff_prover]
pub fn build_xasr_runtime_tensors<H: ImportHost>(
    host: &H,
    tensors: &Vec<SourceTensor>,
    quantization: PackQuant,
) -> (result: Result<Vec<GgufWriteTensor>, LocalSourceImportError>)
    ensures
        tensors_outcome(host, tensors@, quantization, result),
{
    let mut written: Vec<GgufWriteTensor> = Vec::new();
    let mut i: usize = 0;
    while i < tensors.len()
        invariant
            i <= tensors@.len(),
            written@.len() == i,
            names_accepted(tensors@, i as int),
            forall|j: int|
                0 <= j < i ==> written_as(
                    host,
                    tensors@[j],
                    quantization,
                    #[trigger] written@[j],
                ),
        decreases tensors@.len() - i,
    {
        let tensor = &tensors[i];
        let target_name = compact_xasr_name(tensor.name.as_str());
        if byte_len(target_name.as_str()) > GGUF_MAX_TENSOR_NAME {
            assert(name_refusal(tensors@, i as int) is Some);
            return Err(name_error(target_name.as_str(), tensor.name.as_str(), false));
        }
        let taken = is_taken(&written, &target_name);
        proof {
            assert(taken == name_taken(tensors@, i as int, target_name@)) by {
                if taken {
                    let k = choose|k: int|
                        0 <= k < written@.len() && (#[trigger] written@[k]).name@ == target_name@;
                    assert(compacted(tensors@[k].name@) == target_name@);
                }
                if name_taken(tensors@, i as int, target_name@) {
                    let k = choose|k: int|
                        0 <= k < i && compacted((#[trigger] tensors@[k]).name@) == target_name@;
                    assert(written@[k].name@ == target_name@);
                }
            }
        }
        if taken {
            assert(name_refusal(tensors@, i as int) is Some);
            return Err(name_error(target_name.as_str(), tensor.name.as_str(), true));
        }
        assert(name_refusal(tensors@, i as int) is None);
        let converted = convert_tensor(host, tensor, target_name, quantization)?;
        written.push(converted);
        i = i + 1;
    }
    if written.len() == 0 {
        return Err(
            validate_error(text::copy_text("xasr-zipformer source produced no tensors")),
        );
    }
    Ok(written)
}

/// No two tensors of a pack have the same name, and all names fit.
pub proof fn law_pack_names_are_distinct_and_fit<H: ImportHost>(
    host: &H,
    tensors: Seq<SourceTensor>,
    quantization: PackQuant,
    written: Vec<GgufWriteTensor>,
)
    requires
        tensors_outcome(
            host,
            tensors,
            quantization,
            Ok::<Vec<GgufWriteTensor>, LocalSourceImportError>(written),
        ),
    ensures
        forall|i: int|
            0 <= i < written@.len() ==> name_bytes((#[trigger] written@[i]).name@)
                <= GGUF_MAX_TENSOR_NAME,
        forall|i: int, j: int|
            0 <= i < j < written@.len() ==> (#[trigger] written@[i]).name@ != (
            #[trigger] written@[j]).name@,
{
    assert forall|i: int| 0 <= i < written@.len() implies name_bytes((#[trigger] written@[i]).name@)
        <= GGUF_MAX_TENSOR_NAME by {
        assert(written_as(host, tensors[i], quantization, written@[i]));
        assert(name_refusal(tensors, i) is None);
    }
    assert forall|i: int, j: int| 0 <= i < j < written@.len() implies (
    #[trigger] written@[i]).name@ != (#[trigger] written@[j]).name@ by {
        assert(written_as(host, tensors[i], quantization, written@[i]));
        assert(written_as(host, tensors[j], quantization, written@[j]));
        assert(name_refusal(tensors, j) is None);
        if written@[i].name@ == written@[j].name@ {
            assert(compacted(tensors[i].name@) == compacted(tensors[j].name@));
            assert(name_taken(tensors, j, compacted(tensors[j].name@)));
        }
    }
}

/// `metadata` is that of the pack.
pub open spec fn metadata_written(
    identity: PackIdentity,
    config: XasrZipformerConfigJson,
    request: XasrZipformerImportRequest,
    bytes: Seq<u8>,
    metadata: Seq<MetadataEntry>,
) -> bool {
    exists|symbols: Seq<Seq<char>>|
        #[trigger] tokens_listed(bytes, config.vocab_size, symbols) && entries_view(metadata)
            == pack_metadata(identity, config, request.model_id@, symbols)
}

/// `symbols` are the tokens of the list, by id.
pub open spec fn tokens_listed(bytes: Seq<u8>, vocab_size: u32, symbols: Seq<Seq<char>>) -> bool {
    let lines = split_lines(vstd::utf8::decode_utf8(bytes));
    &&& symbols.len() == vocab_size
    &&& forall|id: int|
        0 <= id < vocab_size ==> symbol_of(lines, lines.len() as int, id) == Some(
            #[trigger] symbols[id],
        )
}

/// A pack that is ready to be written.
#[derive(Debug)]
pub struct PlannedPack {
    pub metadata: Vec<MetadataEntry>,
    pub tensors: Vec<GgufWriteTensor>,
    pub blank_token_id: u32,
}

/// What can come of planning a pack once the tensors are listed.
pub open spec fn outcome_of_tensors<H: ImportHost>(
    host: &H,
    identity: PackIdentity,
    request: XasrZipformerImportRequest,
    config: XasrZipformerConfigJson,
    bytes: Seq<u8>,
    tensors: Vec<SourceTensor>,
    result: Result<PlannedPack, LocalSourceImportError>,
) -> bool {
    match result {
        Ok(pack) => {
            &&& tensors_outcome(
                host,
                tensors@,
                request.quantization,
                Ok::<Vec<GgufWriteTensor>, LocalSourceImportError>(pack.tensors),
            )
            &&& metadata_written(identity, config, request, bytes, pack.metadata@)
            &&& pack.blank_token_id == config.blank_id
        },
        Err(error) => tensors_outcome(
            host,
            tensors@,
            request.quantization,
            Err::<Vec<GgufWriteTensor>, LocalSourceImportError>(error),
        ),
    }
}

/// What can come of planning a pack once the token list is read.
pub open spec fn outcome_of_tokens<H: ImportHost>(
    host: &H,
    identity: PackIdentity,
    request: XasrZipformerImportRequest,
    config: XasrZipformerConfigJson,
    bytes: Seq<u8>,
    result: Result<PlannedPack, LocalSourceImportError>,
) -> bool {
    match tokens_refusal(bytes, config.vocab_size) {
        Some(reason) => result is Err && result->Err_0.is_validation(reason),
        None => {
            ||| result is Err && call_ensures(
                H::open_tensors,
                (host, &request.source_root),
                Err::<Vec<SourceTensor>, LocalSourceImportError>(result->Err_0),
            )
            ||| exists|tensors: Vec<SourceTensor>|
                #[trigger] call_ensures(
                    H::open_tensors,
                    (host, &request.source_root),
                    Ok::<Vec<SourceTensor>, LocalSourceImportError>(tensors),
                ) && outcome_of_tensors(host, identity, request, config, bytes, tensors, result)
        },
    }
}

/// What can come of planning a pack once the configuration is read.
pub open spec fn outcome_of_config<H: ImportHost>(
    host: &H,
    identity: PackIdentity,
    request: XasrZipformerImportRequest,
    config: XasrZipformerConfigJson,
    result: Result<PlannedPack, LocalSourceImportError>,
) -> bool {
    match config_refusal(config) {
        Some(reason) => result is Err && result->Err_0.is_validation(reason),
        None => {
            ||| result is Err && call_ensures(
                H::read_tokens,
                (host, &request.source_root),
                Err::<Vec<u8>, LocalSourceImportError>(result->Err_0),
            )
            ||| exists|bytes: Vec<u8>|
                #[trigger] call_ensures(
                    H::read_tokens,
                    (host, &request.source_root),
                    Ok::<Vec<u8>, LocalSourceImportError>(bytes),
                ) && outcome_of_tokens(host, identity, request, config, bytes@, result)
        },
    }
}

/// What can come of planning a pack.  A step is taken only where the host and the checks
/// accepted all steps before it.
pub open spec fn plan_outcome<H: ImportHost>(
    host: &H,
    identity: PackIdentity,
    request: XasrZipformerImportRequest,
    result: Result<PlannedPack, LocalSourceImportError>,
) -> bool {
    let accepted = call_ensures(
        H::check_output,
        (host, &request.output_root),
        Ok::<(), LocalSourceImportError>(()),
    );
    ||| result is Err && call_ensures(
        H::check_output,
        (host, &request.output_root),
        Err::<(), LocalSourceImportError>(result->Err_0),
    )
    ||| accepted && result is Err && call_ensures(
        H::read_config,
        (host, &request.source_root),
        Err::<XasrZipformerConfigJson, LocalSourceImportError>(result->Err_0),
    )
    ||| accepted && exists|config: XasrZipformerConfigJson|
        #[trigger] call_ensures(
            H::read_config,
            (host, &request.source_root),
            Ok::<XasrZipformerConfigJson, LocalSourceImportError>(config),
        ) && outcome_of_config(host, identity, request, config, result)
}

/// Reads a local model source and plans its runtime pack.  Nothing is written.
pub fn plan_runtime_pack<H: ImportHost>(
    host: &H,
    identity: &PackIdentity,
    request: &XasrZipformerImportRequest,
) -> (result: Result<PlannedPack, LocalSourceImportError>)
    ensures
        plan_outcome(host, *identity, *request, result),
{
    let checked = host.check_output(&request.output_root);
    assert(call_ensures(H::check_output, (host, &request.output_root), checked));
    match checked {
        Ok(nothing) => {
            assert(nothing == ());
        },
        Err(error) => return Err(error),
    }
    let config = host.read_config(&request.source_root)?;
    assert(call_ensures(
        H::read_config,
        (host, &request.source_root),
        Ok::<XasrZipformerConfigJson, LocalSourceImportError>(config),
    ));
    validate_config(&config)?;
    let bytes = host.read_tokens(&request.source_root)?;
    let ghost shown = bytes@;
    assert(call_ensures(
        H::read_tokens,
        (host, &request.source_root),
        Ok::<Vec<u8>, LocalSourceImportError>(bytes),
    ));
    let vocab_tokens = parse_tokens_txt(bytes, config.vocab_size)?;
    let source = host.open_tensors(&request.source_root)?;
    assert(call_ensures(
        H::open_tensors,
        (host, &request.source_root),
        Ok::<Vec<SourceTensor>, LocalSourceImportError>(source),
    ));
    proof {
        let symbols = texts(vocab_tokens@);
        assert forall|id: int| 0 <= id < config.vocab_size implies symbol_of(
            split_lines(vstd::utf8::decode_utf8(shown)),
            split_lines(vstd::utf8::decode_utf8(shown)).len() as int,
            id,
        ) == Some(#[trigger] symbols[id]) by {
            assert(symbols[id] == vocab_tokens@[id]@);
        }
        assert(tokens_listed(shown, config.vocab_size, symbols));
    }
    let tensors = build_xasr_runtime_tensors(host, &source, request.quantization)?;
    let metadata = xasr_runtime_gguf_metadata(
        identity,
        &config,
        request,
        vocab_tokens.as_slice(),
    );
    assert(metadata_written(*identity, config, *request, shown, metadata@));
    Ok(PlannedPack { metadata, tensors, blank_token_id: config.blank_id })
}

/// What comes of an import once the writer has answered.
pub open spec fn write_outcome<W: PackWriter>(
    writer: W,
    request: XasrZipformerImportRequest,
    pack: PlannedPack,
    wrote: Result<(), String>,
    result: Result<XasrZipformerImportResult, LocalSourceImportError>,
) -> bool {
    match wrote {
        Err(reason) => result is Err && result->Err_0.is_validation(
            "xasr-zipformer GGUF writer failed for '"@ + request.output_root@ + "': "@ + reason@,
        ),
        Ok(_) => match result {
            Ok(done) => {
                &&& done.output_path@ == request.output_root@
                &&& done.blank_token_id == pack.blank_token_id
                &&& call_ensures(
                    W::count_tensors,
                    (&writer, &request.output_root),
                    Ok::<usize, String>(done.tensor_count),
                )
            },
            Err(error) => exists|reason: String|
                #[trigger] call_ensures(
                    W::count_tensors,
                    (&writer, &request.output_root),
                    Err::<usize, String>(reason),
                ) && error.is_validation(
                    "xasr-zipformer import produced an unreadable tensor index: "@ + reason@,
                ),
        },
    }
}

/// Writes a planned pack, once, and counts its tensors.
pub fn write_runtime_pack<W: PackWriter>(
    writer: &mut W,
    request: &XasrZipformerImportRequest,
    pack: &PlannedPack,
) -> (result: Result<XasrZipformerImportResult, LocalSourceImportError>)
    ensures
        exists|once: &mut W, wrote: Result<(), String>|
            *once == *old(writer) && *final(once) == *final(writer) && #[trigger] call_ensures(
                W::write_pack,
                (once, &request.output_root, &pack.metadata, &pack.tensors),
                wrote,
            ) && write_outcome(*final(writer), *request, *pack, wrote, result),
{
    let wrote = writer.write_pack(&request.output_root, &pack.metadata, &pack.tensors);
    match wrote {
        Ok(_) => {},
        Err(error) => {
            let mut reason = text::copy_text("xasr-zipformer GGUF writer failed for '");
            reason.append(request.output_root.as_str());
            reason.append("': ");
            reason.append(error.as_str());
            return Err(validate_error(reason));
        },
    }
    let counted = writer.count_tensors(&request.output_root);
    assert(call_ensures(W::count_tensors, (&*writer, &request.output_root), counted));
    match counted {
        Ok(tensor_count) => Ok(
            XasrZipformerImportResult {
                output_path: text::copy_text(request.output_root.as_str()),
                tensor_count,
                blank_token_id: pack.blank_token_id,
            },
        ),
        Err(error) => {
            let mut reason = text::copy_text(
                "xasr-zipformer import produced an unreadable tensor index: ",
            );
            reason.append(error.as_str());
            Err(validate_error(reason))
        },
    }
}

/// Imports a local model source into a runtime pack.  A request that is refused leaves
/// the writer untouched; else the planned pack is written, once.
pub fn convert_local_xasr_zipformer_source_to_runtime_pack<H: ImportHost, W: PackWriter>(
    host: &H,
    writer: &mut W,
    identity: &PackIdentity,
    request: &XasrZipformerImportRequest,
) -> (result: Result<XasrZipformerImportResult, LocalSourceImportError>)
    ensures
        exists|planned: Result<PlannedPack, LocalSourceImportError>|
            #[trigger] plan_outcome(host, *identity, *request, planned) && match planned {
                Err(error) => {
                    &&& result == Err::<XasrZipformerImportResult, LocalSourceImportError>(error)
                    &&& *final(writer) == *old(writer)
                },
                Ok(pack) => exists|once: &mut W, wrote: Result<(), String>|
                    *once == *old(writer) && *final(once) == *final(writer)
                        && #[trigger] call_ensures(
                        W::write_pack,
                        (once, &request.output_root, &pack.metadata, &pack.tensors),
                        wrote,
                    ) && write_outcome(*final(writer), *request, pack, wrote, result),
            },
{
    let planned = plan_runtime_pack(host, identity, request);
    match planned {
        Ok(pack) => {
            assert(plan_outcome(
                host,
                *identity,
                *request,
                Ok::<PlannedPack, LocalSourceImportError>(pack),
            ));
            write_runtime_pack(writer, request, &pack)
        },
        Err(error) => {
            assert(plan_outcome(
                host,
                *identity,
                *request,
                Err::<PlannedPack, LocalSourceImportError>(error),
            ));
            Err(error)
        },
    }
}

} // verus!
