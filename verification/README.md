# xasr_zipformer

A verified library for the X-ASR Zipformer transducer: packing a model source,
planning the encoder as a tensor graph, computing it on the host, and searching
greedily for tokens.

Floats are carried as 32-bit patterns. The library decides which elements meet in
which order; an implementation of `float_ops::FloatOps` adds and multiplies them.
A recorded graph is a list of operations for a ggml device. `tensor_value` says what
each tensor of such a graph stands for.

| Modules | Subject |
| --- | --- |
| `frontend*` | frames of a stream and their mel features |
| `embed_*`, `layer_*`, `attention_graph`, `zipformer_graph` | parts of the encoder as graphs |
| `encoder_*`, `full_*`, `chunk_*`, `kept_uploads` | the whole encoder as a graph, chunk by chunk |
| `reference_*` | the encoder on the host |
| `plan_spans`, `upload_targets`, `cache_laws` | tensors and caches of encoder graphs |
| `parity*`, `host_chunks` | that graphs and the host compute the same formulas |
| `alike`, `same_layers`, `rebuilt_chunks` | that equal chunks give equal results on any device |
| `decoder`, `joiner`, `softmax`, `greedy`, `search_trace`, `device_head_graph` | predictor, joiner and search |
| `package_*`, `name_laws`, `loaded_names` | names, tokens and metadata of packs, and their import |
| `executor` | the text and words of an utterance |

`tests/` runs the library on concrete values, with an interpreter for recorded
graphs. `app/` holds what touches files, devices and float arithmetic.
