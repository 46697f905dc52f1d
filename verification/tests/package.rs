//! Names, tokens and metadata of packs, and their import.

use xasr_zipformer::encoder_loading::layer_prefix;
use xasr_zipformer::package_import::{
    build_xasr_runtime_tensors, convert_local_xasr_zipformer_source_to_runtime_pack,
    encode_f16_bits_le, encode_f32_le, join_u32, validate_config, xasr_runtime_gguf_metadata,
    GgufWriteTensor, GgufWriteValue, ImportHost, MetadataEntry, PackIdentity, PackWriter,
    SourceTensor, XasrZipformerConfigJson, XasrZipformerImportRequest,
};
use xasr_zipformer::package_names::{
    compact_xasr_name, normalize_xasr_weight_dims, quantized_tensor_type_for_xasr_tensor,
    xasr_tensor_is_f32, GgufWriteTensorType, PackQuant, XasrZipformerQuantizationMode,
    GGUF_MAX_TENSOR_NAME,
};
use xasr_zipformer::package_tokens::{parse_tokens_txt, LocalSourceImportError};

const OASR_METADATA_KEY_MODEL_FAMILY: &str = "openasr.model.family";
const XASR_ZIPFORMER_MODEL_FAMILY: &str = "xasr-zipformer";

fn fixture_config() -> XasrZipformerConfigJson {
    XasrZipformerConfigJson {
        num_encoder_layers: vec![2, 2, 4, 5, 4, 2],
        encoder_dims: vec![192, 256, 512, 768, 512, 256],
        query_head_dims: vec![32, 32, 32, 32, 32, 32],
        value_head_dims: vec![12, 12, 12, 12, 12, 12],
        num_heads: vec![4, 4, 4, 8, 4, 4],
        cnn_module_kernels: vec![31, 31, 15, 15, 15, 31],
        left_context_len: vec![256, 128, 64, 32, 64, 128],
        downsampling_factors: vec![1, 2, 4, 8, 4, 2],
        feature_dim: 80,
        decode_chunk_len: 48,
        joiner_dim: 512,
        decoder_context_size: 2,
        vocab_size: 5000,
        blank_id: 0,
    }
}

fn fixture_request() -> XasrZipformerImportRequest {
    XasrZipformerImportRequest {
        source_root: "/tmp/xasr-src".to_string(),
        output_root: "/tmp/xasr-out.oasr".to_string(),
        model_id: "x-asr-zh-en-test".to_string(),
        quantization: XasrZipformerQuantizationMode::Fp16,
    }
}

fn identity() -> PackIdentity {
    PackIdentity {
        package_version_key: "openasr.package.version".to_string(),
        package_version: "1".to_string(),
        model_family_key: OASR_METADATA_KEY_MODEL_FAMILY.to_string(),
        model_family: XASR_ZIPFORMER_MODEL_FAMILY.to_string(),
        model_architecture_key: "openasr.model.architecture".to_string(),
        architecture_id: "xasr".to_string(),
        audio_frontend_key: "openasr.audio.frontend".to_string(),
        audio_frontend_id: "fbank".to_string(),
        decode_policy_key: "openasr.decode.policy".to_string(),
        decode_policy_id: "greedy".to_string(),
        tokenizer_key: "openasr.tokenizer".to_string(),
        tokenizer_id: "bpe".to_string(),
    }
}

fn value<'a>(metadata: &'a [MetadataEntry], key: &str) -> Option<&'a GgufWriteValue> {
    metadata
        .iter()
        .find(|entry| entry.key == key)
        .map(|entry| &entry.value)
}

fn string_metadata(metadata: &[MetadataEntry], key: &str) -> Option<String> {
    match value(metadata, key) {
        Some(GgufWriteValue::Text(text)) => Some(text.clone()),
        _ => None,
    }
}

#[test]
fn metadata_declares_streaming_family_and_stack_arrays() {
    let metadata = xasr_runtime_gguf_metadata(
        &identity(),
        &fixture_config(),
        &fixture_request(),
        &["<blk>".to_string()],
    );
    assert_eq!(
        string_metadata(&metadata, OASR_METADATA_KEY_MODEL_FAMILY),
        Some(XASR_ZIPFORMER_MODEL_FAMILY.to_string())
    );
    assert_eq!(
        string_metadata(&metadata, "xasr.num_encoder_layers"),
        Some("2,2,4,5,4,2".to_string())
    );
    assert_eq!(
        string_metadata(&metadata, "xasr.encoder_dims"),
        Some("192,256,512,768,512,256".to_string())
    );
    assert_eq!(
        string_metadata(&metadata, "xasr.left_context_len"),
        Some("256,128,64,32,64,128".to_string())
    );
    assert!(matches!(
        value(&metadata, "xasr.decode_chunk_len"),
        Some(GgufWriteValue::U32(48))
    ));
    match value(&metadata, "tokenizer.ggml.tokens") {
        Some(GgufWriteValue::TextArray(tokens)) => assert_eq!(tokens, &["<blk>".to_string()]),
        _ => panic!("the tokens are a list"),
    }
}

#[test]
fn weight_dims_reverse_only_rank2plus_weight() {
    // rank-2 linear: HF [out, in] -> ggml [in, out]
    assert_eq!(
        normalize_xasr_weight_dims("joiner.output_linear.weight", &[5000, 512]),
        vec![512, 5000]
    );
    // conv kernel [OC, IC, k] -> reversed
    assert_eq!(
        normalize_xasr_weight_dims("decoder.conv.weight", &[512, 4, 2]),
        vec![2, 4, 512]
    );
    // scale (not .weight) keeps source dims
    assert_eq!(
        normalize_xasr_weight_dims(
            "encoder.encoders.0.layers.0.conv_module1.depthwise_conv.chunkwise_conv_scale",
            &[2, 192, 31]
        ),
        vec![2, 192, 31]
    );
    // 1-D bias untouched
    assert_eq!(
        normalize_xasr_weight_dims("encoder_proj.bias", &[512]),
        vec![512]
    );
}

#[test]
fn normalizing_twice_gives_the_dims_back() {
    for (name, dims) in [
        ("decoder.conv.weight", vec![512_u64, 4, 2]),
        ("encoder_proj.bias", vec![512]),
        ("x.weight", vec![7]),
    ] {
        let once = normalize_xasr_weight_dims(name, &dims);
        assert_eq!(normalize_xasr_weight_dims(name, &once), dims);
    }
}

fn by_rows(row_len: u64, quantization: PackQuant) -> Option<GgufWriteTensorType> {
    if quantization == PackQuant::Q8_0 && row_len % 32 == 0 {
        Some(GgufWriteTensorType::Q8_0)
    } else {
        None
    }
}

#[test]
fn quant_policy_keeps_sensitive_tensors_f32() {
    // embedding -> f32 (get_rows source), even in q8 mode
    assert!(xasr_tensor_is_f32("decoder.embedding.weight", &[512, 5000]));
    // scales / norms / bias / bypass -> f32
    assert!(xasr_tensor_is_f32(
        "encoder.encoders.0.layers.0.bypass.bypass_scale",
        &[192]
    ));
    assert!(xasr_tensor_is_f32(
        "encoder.encoders.0.layers.0.feed_forward1.out_proj.bias",
        &[192]
    ));
    // a plain rank-2 projection weight is quantizable in q8 mode
    let q = quantized_tensor_type_for_xasr_tensor(
        "encoder.encoders.0.layers.0.feed_forward1.in_proj.weight",
        &[192, 384],
        false,
        XasrZipformerQuantizationMode::Q8_0,
        &by_rows,
    );
    assert_eq!(q, Some(GgufWriteTensorType::Q8_0));
}

#[test]
fn only_matrices_of_quantized_packs_are_quantized() {
    let q = |name: &str, dims: &[u64], force: bool, mode: PackQuant| {
        quantized_tensor_type_for_xasr_tensor(name, dims, force, mode, &by_rows)
    };
    assert_eq!(q("a.weight", &[64, 2], false, PackQuant::Q8_0), Some(GgufWriteTensorType::Q8_0));
    assert_eq!(q("a.weight", &[64, 2], true, PackQuant::Q8_0), None);
    assert_eq!(q("a.weight", &[64, 2], false, PackQuant::Fp16), None);
    assert_eq!(q("a.weight", &[64, 2, 1], false, PackQuant::Q8_0), None);
    assert_eq!(q("a.scale", &[64, 2], false, PackQuant::Q8_0), None);
    assert_eq!(q("a.weight", &[63, 2], false, PackQuant::Q8_0), None);
}

#[test]
fn name_compaction_is_short_and_structure_preserving() {
    assert_eq!(
        compact_xasr_name(
            "encoder.encoders.3.encoder.layers.2.conv_module1.depthwise_conv.chunkwise_conv_scale"
        ),
        "E3.L2.CM1.DW.KC_scale"
    );
    assert_eq!(
        compact_xasr_name("encoder.encoders.0.layers.0.feed_forward1.in_proj.weight"),
        "E0.L0.FF1.IP.weight"
    );
    assert_eq!(
        compact_xasr_name("joiner.output_linear.weight"),
        "joiner.OL.weight"
    );
    assert_eq!(
        compact_xasr_name("decoder.embedding.weight"),
        "decoder.EMB.weight"
    );
    // Top-level (non-stack) names that have no abbreviation pass through.
    assert_eq!(
        compact_xasr_name("simple_am_proj.weight"),
        "simple_am_proj.weight"
    );
    assert!(
        compact_xasr_name("encoder.encoders.3.encoder.layers.4.nonlin_attention.out_proj.weight")
            .len()
            <= GGUF_MAX_TENSOR_NAME
    );
}

#[test]
fn tokens_txt_parses_id_indexed() {
    let content = "<blk> 0\n<sos/eos> 1\n\u{2581}a 2\n";
    let tokens = parse_tokens_txt(content.as_bytes().to_vec(), 3).unwrap();
    assert_eq!(tokens, vec!["<blk>", "<sos/eos>", "\u{2581}a"]);
}

#[test]
fn token_lines_may_come_in_any_order() {
    let content = "b c 1\r\n\n a 0\n";
    let tokens = parse_tokens_txt(content.as_bytes().to_vec(), 2).unwrap();
    assert_eq!(tokens, vec![" a", "b c"]);
}

#[test]
fn unusable_token_lists_are_refused() {
    let refused = |content: &[u8], vocab_size: u32| {
        match parse_tokens_txt(content.to_vec(), vocab_size) {
            Ok(_) => panic!("a refusal was expected"),
            Err(error) => error.message(),
        }
    };
    assert_eq!(
        refused(b"a 0\nb\t1\n", 2),
        "xasr-zipformer tokens.txt line 2 is not '<symbol> <id>': \"b\\t1\""
    );
    assert_eq!(
        refused(b"a zero\n", 1),
        "xasr-zipformer tokens.txt line 1 has a non-integer id \"zero\""
    );
    assert_eq!(
        refused(b"a 0\n", 2),
        "xasr-zipformer tokens.txt is missing token for id 1"
    );
    assert_eq!(
        refused(&[0xff, 0x20, 0x30], 1),
        "xasr-zipformer tokens.txt is not valid UTF-8"
    );
}

#[test]
fn configurations_describe_every_stack() {
    assert!(validate_config(&fixture_config()).is_ok());
    let refused = |change: &dyn Fn(&mut XasrZipformerConfigJson)| {
        let mut config = fixture_config();
        change(&mut config);
        match validate_config(&config) {
            Ok(_) => panic!("a refusal was expected"),
            Err(error) => error.message(),
        }
    };
    assert_eq!(
        refused(&|config| config.num_encoder_layers.clear()),
        "xasr-zipformer config num_encoder_layers must not be empty"
    );
    assert_eq!(
        refused(&|config| config.num_heads.truncate(5)),
        "xasr-zipformer config 'num_heads' has 5 entries, expected 6 (one per stack)"
    );
    assert_eq!(
        refused(&|config| config.vocab_size = 0),
        "xasr-zipformer config vocab_size must be > 0"
    );
    assert_eq!(
        refused(&|config| config.blank_id = 5000),
        "xasr-zipformer config blank_id 5000 is out of range for vocab_size 5000"
    );
}

#[test]
fn tensor_data_is_little_endian() {
    assert_eq!(encode_f32_le(&[0x3f80_0001]), vec![1, 0, 0x80, 0x3f]);
    assert_eq!(encode_f16_bits_le(&[0x3c01, 2]), vec![1, 0x3c, 2, 0]);
}

/// A source in memory.
struct Host {
    config: fn() -> XasrZipformerConfigJson,
    tokens: Vec<u8>,
    tensors: Vec<(&'static str, Vec<u64>)>,
    output_taken: bool,
}

/// A disk that notes what is written.
struct Disk {
    written: Vec<(String, Vec<u64>, GgufWriteTensorType, usize)>,
    calls: usize,
    broken: bool,
}

fn disk() -> Disk {
    Disk { written: Vec::new(), calls: 0, broken: false }
}

fn host() -> Host {
    Host {
        config: || {
            let mut config = fixture_config();
            config.vocab_size = 2;
            config
        },
        tokens: b"<blk> 0\na 1\n".to_vec(),
        tensors: vec![
            ("joiner.output_linear.weight", vec![2, 32]),
            ("joiner.output_linear.bias", vec![2]),
            ("decoder.conv.weight", vec![3, 2, 2]),
            ("decoder.embedding.weight", vec![2, 32]),
        ],
        output_taken: false,
    }
}

impl ImportHost for Host {
    fn check_output(&self, output_root: &String) -> Result<(), LocalSourceImportError> {
        if self.output_taken {
            Err(LocalSourceImportError::Io { reason: format!("{output_root} exists") })
        } else {
            Ok(())
        }
    }

    fn read_config(
        &self,
        _source_root: &String,
    ) -> Result<XasrZipformerConfigJson, LocalSourceImportError> {
        Ok((self.config)())
    }

    fn read_tokens(&self, _source_root: &String) -> Result<Vec<u8>, LocalSourceImportError> {
        Ok(self.tokens.clone())
    }

    fn open_tensors(
        &self,
        _source_root: &String,
    ) -> Result<Vec<SourceTensor>, LocalSourceImportError> {
        let tensors = self.tensors.iter().map(|(name, shape)| SourceTensor {
            name: name.to_string(),
            dtype: "F32".to_string(),
            shape: shape.clone(),
        });
        Ok(tensors.collect())
    }

    fn decode_f32(&self, tensor: &SourceTensor) -> Result<Vec<u32>, LocalSourceImportError> {
        let len: u64 = tensor.shape.iter().product();
        Ok(vec![0x3f80_0000; len as usize])
    }

    fn decode_f16_bits(&self, tensor: &SourceTensor) -> Result<Vec<u16>, LocalSourceImportError> {
        let len: u64 = tensor.shape.iter().product();
        Ok(vec![0x3c00; len as usize])
    }

    fn classify(&self, row_len: u64, quantization: PackQuant) -> Option<GgufWriteTensorType> {
        by_rows(row_len, quantization)
    }

    fn quantize(
        &self,
        _tensor_type: GgufWriteTensorType,
        dims: &[u64],
        values: &[u32],
    ) -> Result<Vec<u8>, String> {
        if dims.iter().product::<u64>() as usize != values.len() {
            return Err("lengths differ".to_string());
        }
        Ok(vec![0; values.len() / 32 * 34])
    }
}

impl PackWriter for Disk {
    fn write_pack(
        &mut self,
        _output_root: &String,
        _metadata: &Vec<MetadataEntry>,
        tensors: &Vec<GgufWriteTensor>,
    ) -> Result<(), String> {
        self.calls += 1;
        if self.broken {
            return Err("disk full".to_string());
        }
        for tensor in tensors {
            self.written.push((
                tensor.name.clone(),
                tensor.dims.clone(),
                tensor.tensor_type,
                tensor.data.len(),
            ));
        }
        Ok(())
    }

    fn count_tensors(&self, _output_root: &String) -> Result<usize, String> {
        Ok(self.written.len())
    }
}

fn import_to(
    disk: &mut Disk,
    host: &Host,
    quantization: PackQuant,
) -> Result<(usize, u32), String> {
    let mut request = fixture_request();
    request.quantization = quantization;
    match convert_local_xasr_zipformer_source_to_runtime_pack(host, disk, &identity(), &request) {
        Ok(result) => Ok((result.tensor_count, result.blank_token_id)),
        Err(error) => Err(error.message()),
    }
}

fn import(host: &Host, quantization: PackQuant) -> Result<(usize, u32), String> {
    import_to(&mut disk(), host, quantization)
}

#[test]
fn sources_become_packs() {
    let mut target = disk();
    assert_eq!(import_to(&mut target, &host(), PackQuant::Q8_0), Ok((4, 0)));
    assert_eq!(target.calls, 1);
    assert_eq!(
        target.written,
        vec![
            ("joiner.OL.weight".to_string(), vec![32, 2], GgufWriteTensorType::Q8_0, 68),
            ("joiner.OL.bias".to_string(), vec![2], GgufWriteTensorType::F32, 8),
            ("decoder.conv.weight".to_string(), vec![2, 2, 3], GgufWriteTensorType::F32, 48),
            ("decoder.EMB.weight".to_string(), vec![32, 2], GgufWriteTensorType::F32, 256),
        ]
    );
    let mut target = disk();
    assert_eq!(import_to(&mut target, &host(), PackQuant::Fp16), Ok((4, 0)));
    assert_eq!(target.written[0].2, GgufWriteTensorType::F16);
}

#[test]
fn failed_imports_say_why() {
    let mut source = host();
    source.output_taken = true;
    assert_eq!(
        import(&source, PackQuant::Fp16),
        Err("/tmp/xasr-out.oasr exists".to_string())
    );
    let mut source = host();
    source.tensors.clear();
    assert_eq!(
        import(&source, PackQuant::Fp16),
        Err("xasr-zipformer source produced no tensors".to_string())
    );
    let mut target = Disk { broken: true, ..disk() };
    assert_eq!(
        import_to(&mut target, &host(), PackQuant::Fp16),
        Err("xasr-zipformer GGUF writer failed for '/tmp/xasr-out.oasr': disk full".to_string())
    );
    let mut source = host();
    source.tokens = b"<blk> 0\n".to_vec();
    assert_eq!(
        import(&source, PackQuant::Fp16),
        Err("xasr-zipformer tokens.txt is missing token for id 1".to_string())
    );
    let mut source = host();
    source.config = fixture_config;
    source.config = || {
        let mut config = fixture_config();
        config.encoder_dims.pop();
        config
    };
    assert_eq!(
        import(&source, PackQuant::Fp16),
        Err("xasr-zipformer config 'encoder_dims' has 5 entries, expected 6 (one per stack)"
            .to_string())
    );
}

#[test]
fn refused_imports_write_nothing() {
    let taken = Host { output_taken: true, ..host() };
    let mut target = disk();
    assert!(import_to(&mut target, &taken, PackQuant::Q8_0).is_err());
    assert_eq!(target.calls, 0);
    let untitled = Host { tokens: b"<blk> 0\n".to_vec(), ..host() };
    assert!(import_to(&mut target, &untitled, PackQuant::Q8_0).is_err());
    assert_eq!(target.calls, 0);
    assert!(target.written.is_empty());
}

#[test]
fn pack_names_are_distinct_and_fit() {
    let clash = Host {
        tensors: vec![
            ("joiner.output_linear.weight", vec![2]),
            ("joiner.OL.weight", vec![2]),
        ],
        ..host()
    };
    assert_eq!(
        import(&clash, PackQuant::Fp16),
        Err(
            "xasr-zipformer name compaction collided on 'joiner.OL.weight' (from 'joiner.OL.weight')"
                .to_string()
        )
    );
    let long = "a_name_that_no_abbreviation_makes_any_shorter_than_sixty_four_bytes";
    assert_eq!(long.len(), 67);
    let tensors = vec![SourceTensor {
        name: long.to_string(),
        dtype: "F32".to_string(),
        shape: vec![1],
    }];
    match build_xasr_runtime_tensors(&host(), &tensors, PackQuant::Fp16) {
        Ok(_) => panic!("the name does not fit"),
        Err(error) => assert_eq!(
            error.message(),
            format!(
                "xasr-zipformer compacted name '{long}' (67 bytes) exceeds the GGUF 63-byte limit \
                 (from '{long}')"
            )
        ),
    }
}

#[test]
fn compaction_never_lengthens_a_name() {
    for name in [
        "",
        "joiner.output_linear.weight",
        "encoder.encoders.0.layers.1.self_attn_weights.in_proj.weight",
        "a plain name",
    ] {
        assert!(compact_xasr_name(name).len() <= name.len());
    }
    assert_eq!(compact_xasr_name("a plain name"), "a plain name");
}

#[test]
fn compacting_twice_changes_nothing() {
    for name in [
        "encoder.encoders.3.encoder.layers.2.conv_module1.depthwise_conv.chunkwise_conv_scale",
        "encoder_embed.convnext.pointwise_conv1.weight",
        "bybypasspass.in_in_projproj",
        "conv_conv_modulemodule",
        "joiner.OL.weight",
    ] {
        let once = compact_xasr_name(name);
        assert_eq!(compact_xasr_name(&once), once);
    }
    assert_eq!(compact_xasr_name("conv_conv_modulemodule"), "conv_CMmodule");
}

#[test]
fn names_of_layers_begin_with_stack_and_layer() {
    for (stack, layer, tail, expected) in [
        (0, 0, "", "E0.L0"),
        (12, 7, ".norm.bias", "E12.L7.norm.bias"),
        (3, 40, ".self_attn2.out_proj.weight", "E3.L40.self_attn2.OP.weight"),
    ] {
        let name = format!("{}{tail}", layer_prefix(stack, layer));
        assert_eq!(compact_xasr_name(&name), expected);
    }
}

#[test]
fn comma_lists_tell_lists_apart() {
    let lists: [&[u32]; 7] = [&[], &[0], &[1, 2], &[12], &[1, 2, 0], &[1, 20], &[120]];
    for (i, a) in lists.iter().enumerate() {
        for (j, b) in lists.iter().enumerate() {
            assert_eq!(join_u32(a) == join_u32(b), i == j);
        }
    }
    assert_eq!(join_u32(&[192, 256, 512]), "192,256,512");
}
