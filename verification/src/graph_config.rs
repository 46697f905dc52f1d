//! Configuration of the graph runners.

use vstd::prelude::*;

verus! {

/// Operations that the graph of the whole encoder may hold.  The number of
/// operations depends on the architecture alone, not on the length of the
/// audio; about eleven thousand are used.
pub const FULL_ENCODER_GRAPH_SIZE: usize = 65_536;

/// Operations that a graph of the predictor and joiner may hold.
pub const DEVICE_HEAD_GRAPH_SIZE: usize = 64;

/// Where a graph runs.
#[derive(Clone, Copy, Debug, PartialEq, Eq, Structural)]
pub enum GgmlCpuGraphBackend {
    Cpu,
    Metal,
    Gpu,
}

impl GgmlCpuGraphBackend {
    pub open spec fn gpu_class(self) -> bool {
        self != GgmlCpuGraphBackend::Cpu
    }

    /// Whether the backend is a graphics processor.
    pub fn is_gpu_class(&self) -> (result: bool)
        ensures
            result == self.gpu_class(),
    {
        match self {
            GgmlCpuGraphBackend::Cpu => false,
            GgmlCpuGraphBackend::Metal => true,
            GgmlCpuGraphBackend::Gpu => true,
        }
    }
}

/// Configuration of a graph runner.
#[derive(Clone, Copy, Debug, PartialEq, Eq, Structural)]
pub struct GgmlCpuGraphConfig {
    pub backend: GgmlCpuGraphBackend,
    /// Operations that a graph may hold.
    pub graph_size: usize,
    /// Bytes for the descriptions of the tensors of a graph.
    pub context_bytes: usize,
    pub n_threads: Option<usize>,
    pub use_scheduler: bool,
}

pub open spec fn max(left: usize, right: usize) -> usize {
    if left >= right {
        left
    } else {
        right
    }
}

/// What the encoder makes of a configuration, given the bytes that its graph
/// size takes and the thread count for small graphs.
pub open spec fn encoder_config(
    config: GgmlCpuGraphConfig,
    has_explicit_thread_override: bool,
    metadata_bytes: usize,
    decoder_threads: Option<usize>,
) -> GgmlCpuGraphConfig {
    GgmlCpuGraphConfig {
        backend: config.backend,
        graph_size: max(config.graph_size, FULL_ENCODER_GRAPH_SIZE),
        context_bytes: max(config.context_bytes, metadata_bytes),
        n_threads: if !has_explicit_thread_override && !config.backend.gpu_class() {
            decoder_threads
        } else {
            config.n_threads
        },
        use_scheduler: config.use_scheduler && !config.backend.gpu_class(),
    }
}

/// The configuration of the encoder runner.
///
/// On a graphics processor everything runs on that one backend, so there is no
/// scheduler.  On a processor the graph of a chunk is small, so it gets the
/// thread count of a decoder unless one was set.
pub fn xasr_zipformer_encoder_graph_config_with_overrides<F: Fn(usize) -> usize>(
    config: GgmlCpuGraphConfig,
    has_explicit_thread_override: bool,
    metadata_context_bytes: &F,
    decoder_threads: Option<usize>,
) -> (result: GgmlCpuGraphConfig)
    requires
        call_requires(metadata_context_bytes, (max(config.graph_size, FULL_ENCODER_GRAPH_SIZE),)),
    ensures
        exists|bytes: usize|
            #[trigger] call_ensures(
                metadata_context_bytes,
                (max(config.graph_size, FULL_ENCODER_GRAPH_SIZE),),
                bytes,
            ) && result == encoder_config(
                config,
                has_explicit_thread_override,
                bytes,
                decoder_threads,
            ),
{
    let mut config = config;
    if config.graph_size < FULL_ENCODER_GRAPH_SIZE {
        config.graph_size = FULL_ENCODER_GRAPH_SIZE;
    }
    let bytes = metadata_context_bytes(config.graph_size);
    if config.context_bytes < bytes {
        config.context_bytes = bytes;
    }
    if config.backend.is_gpu_class() {
        config.use_scheduler = false;
    }
    if !has_explicit_thread_override && !config.backend.is_gpu_class() {
        config.n_threads = decoder_threads;
    }
    config
}

/// What a runner falls back to where the environment leaves a value unset.
#[derive(Clone, Copy, Debug, PartialEq, Eq, Structural)]
pub struct ModelMetalRuntimeOverrides {
    pub default_use_scheduler_when_unset: Option<bool>,
    pub default_n_threads_when_unset: Option<usize>,
}

/// The encoder has no defaults of its own.
pub open spec fn encoder_defaults() -> ModelMetalRuntimeOverrides {
    ModelMetalRuntimeOverrides {
        default_use_scheduler_when_unset: None,
        default_n_threads_when_unset: None,
    }
}

/// The predictor and joiner run without a scheduler and on one thread.
pub open spec fn device_head_defaults() -> ModelMetalRuntimeOverrides {
    ModelMetalRuntimeOverrides {
        default_use_scheduler_when_unset: Some(false),
        default_n_threads_when_unset: Some(1usize),
    }
}

/// The configuration of the encoder runner.  `resolve` reads the environment,
/// given the defaults for what is unset.
pub fn xasr_zipformer_encoder_graph_config<
    R: Fn(ModelMetalRuntimeOverrides) -> GgmlCpuGraphConfig,
    F: Fn(usize) -> usize,
>(
    resolve: &R,
    has_explicit_thread_override: bool,
    metadata_context_bytes: &F,
    decoder_threads: Option<usize>,
) -> (result: GgmlCpuGraphConfig)
    requires
        call_requires(resolve, (encoder_defaults(),)),
        forall|resolved: GgmlCpuGraphConfig| #[trigger]
            call_ensures(resolve, (encoder_defaults(),), resolved) ==> call_requires(
                metadata_context_bytes,
                (max(resolved.graph_size, FULL_ENCODER_GRAPH_SIZE),),
            ),
    ensures
        exists|resolved: GgmlCpuGraphConfig, bytes: usize|
            #![trigger call_ensures(resolve, (encoder_defaults(),), resolved), call_ensures(
                metadata_context_bytes,
                (max(resolved.graph_size, FULL_ENCODER_GRAPH_SIZE),),
                bytes,
            )]
            call_ensures(resolve, (encoder_defaults(),), resolved) && call_ensures(
                metadata_context_bytes,
                (max(resolved.graph_size, FULL_ENCODER_GRAPH_SIZE),),
                bytes,
            ) && result == encoder_config(
                resolved,
                has_explicit_thread_override,
                bytes,
                decoder_threads,
            ),
{
    let resolved = resolve(
        ModelMetalRuntimeOverrides {
            default_use_scheduler_when_unset: None,
            default_n_threads_when_unset: None,
        },
    );
    xasr_zipformer_encoder_graph_config_with_overrides(
        resolved,
        has_explicit_thread_override,
        metadata_context_bytes,
        decoder_threads,
    )
}

/// The configuration of the predictor and joiner runner: room for small graphs, and no
/// scheduler on a graphics processor.  `resolve` reads the environment, given the defaults
/// for what is unset: no scheduler, and one thread.  `with_node_capacity` makes room for a
/// number of nodes.
pub fn xasr_zipformer_device_head_graph_config<
    R: Fn(ModelMetalRuntimeOverrides) -> GgmlCpuGraphConfig,
    F: Fn(GgmlCpuGraphConfig, usize) -> GgmlCpuGraphConfig,
>(resolve: &R, with_node_capacity: &F) -> (result: GgmlCpuGraphConfig)
    requires
        call_requires(resolve, (device_head_defaults(),)),
        forall|resolved: GgmlCpuGraphConfig|
            #[trigger] call_ensures(resolve, (device_head_defaults(),), resolved)
                ==> call_requires(with_node_capacity, (resolved, DEVICE_HEAD_GRAPH_SIZE)),
    ensures
        exists|resolved: GgmlCpuGraphConfig, roomy: GgmlCpuGraphConfig|
            #![trigger call_ensures(resolve, (device_head_defaults(),), resolved), call_ensures(
                with_node_capacity,
                (resolved, DEVICE_HEAD_GRAPH_SIZE),
                roomy,
            )]
            call_ensures(resolve, (device_head_defaults(),), resolved) && call_ensures(
                with_node_capacity,
                (resolved, DEVICE_HEAD_GRAPH_SIZE),
                roomy,
            ) && result == (GgmlCpuGraphConfig {
                use_scheduler: roomy.use_scheduler && !roomy.backend.gpu_class(),
                ..roomy
            }),
{
    let resolved = resolve(
        ModelMetalRuntimeOverrides {
            default_use_scheduler_when_unset: Some(false),
            default_n_threads_when_unset: Some(1),
        },
    );
    let mut config = with_node_capacity(resolved, DEVICE_HEAD_GRAPH_SIZE);
    assert(call_ensures(with_node_capacity, (resolved, DEVICE_HEAD_GRAPH_SIZE), config));
    if config.backend.is_gpu_class() {
        config.use_scheduler = false;
    }
    config
}

/// The encoder never changes the backend, never shrinks a reservation, and
/// keeps thread counts that were set.
pub proof fn law_encoder_config_keeps_what_was_resolved(
    config: GgmlCpuGraphConfig,
    has_explicit_thread_override: bool,
    metadata_bytes: usize,
    decoder_threads: Option<usize>,
)
    ensures
        ({
            let result = encoder_config(
                config,
                has_explicit_thread_override,
                metadata_bytes,
                decoder_threads,
            );
            &&& result.backend == config.backend
            &&& result.graph_size >= FULL_ENCODER_GRAPH_SIZE
            &&& result.graph_size >= config.graph_size
            &&& result.context_bytes >= metadata_bytes
            &&& result.context_bytes >= config.context_bytes
            &&& has_explicit_thread_override ==> result.n_threads == config.n_threads
            &&& config.backend.gpu_class() ==> !result.use_scheduler
        }),
{
}

/// Configuring the encoder twice gives what configuring it once gives: the
/// second time asks for the bytes of the same graph size.
pub proof fn law_configuring_twice_changes_nothing(
    config: GgmlCpuGraphConfig,
    has_explicit_thread_override: bool,
    metadata_bytes: usize,
    decoder_threads: Option<usize>,
)
    ensures
        ({
            let once = encoder_config(
                config,
                has_explicit_thread_override,
                metadata_bytes,
                decoder_threads,
            );
            &&& max(once.graph_size, FULL_ENCODER_GRAPH_SIZE) == max(
                config.graph_size,
                FULL_ENCODER_GRAPH_SIZE,
            )
            &&& encoder_config(once, has_explicit_thread_override, metadata_bytes, decoder_threads)
                == once
        }),
{
}

} // verus!
