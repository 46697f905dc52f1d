//! Verified core of the X-ASR Zipformer streaming speech recogniser.

pub mod bits;
pub mod text;
pub mod rows;
pub mod encoder_weights;
pub mod float_ops;
pub mod tensor_value;
pub mod graph;
pub mod layer_values;
pub mod layer_graph;
pub mod attention_graph;
pub mod zipformer_graph;
pub mod embed_graph;
pub mod encoder_error;
pub mod runtime_contract;
pub mod encoder_tables;
pub mod encoder_binding;
pub mod encoder_upload;
pub mod embed_binding;
pub mod encoder_plan;
pub mod plan_spans;
pub mod full_encoder;
pub mod graph_config;
pub mod full_upload;
pub mod upload_targets;
pub mod encoder_rows;
pub mod encoder_session;
pub mod chunk_reuse;
pub mod chunk_steps;
pub mod encoder_graph;
pub mod embed_run;
pub mod encoder_runs;
pub mod full_run;
pub mod chars;
pub mod package_names;
pub mod loaded_names;
pub mod name_laws;
pub mod package_tokens;
pub mod package_import;
pub mod sums;
pub mod decoder;
pub mod softmax;
pub mod joiner;
pub mod search_trace;
pub mod greedy;
pub mod frontend;
pub mod frontend_laws;
pub mod executor;
pub mod device_head_graph;
pub mod encoder_loading;
pub mod reference_rows;
pub mod reference_scale;
pub mod reference_conv;
pub mod reference_conv_module;
pub mod reference_attention;
pub mod reference_values;
pub mod reference_layer;
pub mod reference_embed;
pub mod reference_embedding;
pub mod reference_encoder;
pub mod reference_facade;
pub mod sum_laws;
pub mod search_laws;
pub mod row_laws;
pub mod attention_laws;
pub mod conv_laws;
pub mod embed_laws;
pub mod encoder_laws;
pub mod head_laws;
pub mod kept_laws;
pub mod layer_laws;
pub mod pack_laws;
pub mod run_laws;
pub mod stack_laws;
pub mod table_laws;
pub mod value_laws;
pub mod word_laws;
pub mod mel_laws;
pub mod metadata_laws;
pub mod loading_laws;
pub mod retained;
pub mod kept_uploads;
pub mod cache_laws;
pub mod parity;
pub mod alike;
pub mod same_layers;
pub mod rebuilt_chunks;
pub mod parity_chunks;
pub mod parity_conv;
pub mod parity_attention;
pub mod parity_values;
pub mod parity_layer;
pub mod parity_scale;
pub mod host_chunks;
pub mod parity_encoder;
pub mod parity_embed;
pub mod parity_embedding;
pub mod parity_head;
pub mod parity_ring;
pub mod parity_upload;
pub mod parity_layer_upload;
pub mod parity_plan_upload;
pub mod parity_embed_upload;
