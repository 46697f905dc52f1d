//! What runs of the encoder are set up with, and what they leave behind.

use vstd::prelude::*;
use crate::encoder_binding::layer_shape;
use crate::encoder_plan::PlanTask;
use crate::encoder_session::cache_holds;
use crate::encoder_upload::{cache_lengths, cache_lengths_refusal, XasrEncoderLayerCache};
use crate::encoder_weights::XasrEncoderLayerWeights;
use crate::full_encoder::XasrFullEncoderGraphPlan;
use crate::full_run::lemma_cache_outputs;
use crate::graph::GgmlCpuTensor;
use crate::graph_config::{encoder_config, GgmlCpuGraphBackend, GgmlCpuGraphConfig};
use crate::reference_layer::LayerCaches;
use crate::reference_scale::law_groups_hold_all_rows;

verus! {

/// The encoder runs on what was asked for, with room for its own graph at least.  On a
/// processor it takes the threads of a decoder unless threads were asked for; on a graphics
/// processor there is no scheduler.
pub proof fn law_the_encoder_asks_for_room_and_threads(
    config: GgmlCpuGraphConfig,
    asked: bool,
    bytes: usize,
    threads: Option<usize>,
)
    ensures
        ({
            let made = encoder_config(config, asked, bytes, threads);
            let on_cpu = config.backend == GgmlCpuGraphBackend::Cpu;
            &&& made.backend == config.backend
            &&& made.graph_size == config.graph_size || made.graph_size == 65_536
            &&& made.graph_size >= config.graph_size
            &&& made.graph_size >= 65_536
            &&& made.context_bytes == config.context_bytes || made.context_bytes == bytes
            &&& made.context_bytes >= config.context_bytes
            &&& made.context_bytes >= bytes
            &&& on_cpu ==> made.use_scheduler == config.use_scheduler
            &&& !on_cpu ==> !made.use_scheduler
            &&& on_cpu && !asked ==> made.n_threads == threads
            &&& !on_cpu || asked ==> made.n_threads == config.n_threads
        }),
{
}

/// What a layer remembers is as long as the left context is wide, for keys and values, and as
/// half the kernel is, for the inputs of each channel of a convolution.
pub proof fn law_caches_are_as_long_as_what_they_remember(
    layer: XasrEncoderLayerWeights,
    dim: usize,
    frames: usize,
    left: usize,
    heads: usize,
    head_dim: usize,
)
    requires
        cache_lengths_refusal(layer_shape(layer, dim, frames, left, heads, head_dim)) is None,
    ensures
        ({
            let lengths = cache_lengths(layer_shape(layer, dim, frames, left, heads, head_dim));
            let kernel1 = layer.conv_module1.depthwise_chunkwise_conv.weight.dims@[0];
            let kernel2 = layer.conv_module2.depthwise_chunkwise_conv.weight.dims@[0];
            &&& lengths.cached_key == left * (heads * head_dim)
            &&& lengths.cached_nonlin_attention == left
                * layer.nonlin_attention.out_proj.weight.input_dim
            &&& lengths.cached_val1 == left * layer.self_attn1.in_proj.weight.output_dim
            &&& lengths.cached_val2 == left * layer.self_attn2.in_proj.weight.output_dim
            &&& lengths.cached_conv1 == dim * (kernel1 / 2)
            &&& lengths.cached_conv2 == dim * (kernel2 / 2)
        }),
{
    assert(0 <= left * (heads * head_dim)) by (nonlinear_arith);
    assert(0 <= left * layer.nonlin_attention.out_proj.weight.input_dim) by (nonlinear_arith);
    assert(0 <= left * layer.self_attn1.in_proj.weight.output_dim) by (nonlinear_arith);
    assert(0 <= left * layer.self_attn2.in_proj.weight.output_dim) by (nonlinear_arith);
}

/// Each result is kept under the name of the tensor that it was read from: the rows of the
/// encoder, and of every layer what it remembers.
pub proof fn law_results_are_kept_under_their_names(
    plan: XasrFullEncoderGraphPlan,
    layers: int,
    read: spec_fn(GgmlCpuTensor) -> Seq<u32>,
    outputs: Seq<Vec<u32>>,
    cache: XasrEncoderLayerCache,
    index: int,
)
    requires
        0 <= index < layers,
        outputs.len() == plan.outputs(layers).len(),
        forall|i: int|
            0 <= i < outputs.len() ==> (#[trigger] outputs[i])@ == read(plan.outputs(layers)[i].0),
        cache_holds(cache, outputs, 1 + 6 * index),
    ensures
        ({
            let left = plan.parts@.layers[index].output;
            &&& outputs[0]@ == read(plan.output.rows)
            &&& cache.cached_key@ == read(left.new_cached_key)
            &&& cache.cached_nonlin_attention@ == read(left.new_cached_nonlin_attention)
            &&& cache.cached_val1@ == read(left.new_cached_val1)
            &&& cache.cached_val2@ == read(left.new_cached_val2)
            &&& cache.cached_conv1@ == read(left.new_cached_conv1)
            &&& cache.cached_conv2@ == read(left.new_cached_conv2)
        }),
{
    lemma_first_output(plan, layers);
    lemma_cache_outputs(plan, layers, index, 0);
    lemma_cache_outputs(plan, layers, index, 1);
    lemma_cache_outputs(plan, layers, index, 2);
    lemma_cache_outputs(plan, layers, index, 3);
    lemma_cache_outputs(plan, layers, index, 4);
    lemma_cache_outputs(plan, layers, index, 5);
}

proof fn lemma_first_output(plan: XasrFullEncoderGraphPlan, layers: int)
    ensures
        plan.outputs(layers).len() > 0,
        plan.outputs(layers)[0].0 == plan.output.rows,
    decreases layers,
{
    if layers > 0 {
        lemma_first_output(plan, layers - 1);
    }
}

/// Each layer is given what it left behind itself: the caches are counted through all stacks,
/// and every one of them is taken for what its name says.
pub proof fn law_each_layer_takes_its_own_memory(
    task: PlanTask,
    caches: Seq<XasrEncoderLayerCache>,
    s: int,
    k: int,
)
    requires
        0 <= s,
        0 <= k,
        task.layer_start(s) + k < caches.len(),
    ensures
        ({
            let own = caches[task.layer_start(s) + k];
            &&& task.layer_start(0) == 0
            &&& task.layer_start(s + 1) == task.layer_start(s) + task.stack(s).layers@.len()
            &&& task.kept(Some(caches), s, k).given() == (LayerCaches {
                key: Some(own.cached_key@),
                nonlin_attention: Some(own.cached_nonlin_attention@),
                val1: Some(own.cached_val1@),
                val2: Some(own.cached_val2@),
                conv1: Some(own.cached_conv1@),
                conv2: Some(own.cached_conv2@),
            })
        }),
{
    lemma_start(task, s);
}

proof fn lemma_start(task: PlanTask, s: int)
    ensures
        task.layer_start(s) >= 0,
    decreases s,
{
    if s > 0 {
        lemma_start(task, s - 1);
    }
}

/// The layers of a stack have the heads and the left context that are written down for the
/// stack.  After the first stack they see every so many frames, and so much less of the left
/// context holds anything.
pub proof fn law_stacks_see_what_is_written_down_for_them(task: PlanTask, s: int)
    requires
        0 <= s,
        s > 0 ==> task.stack(s).downsampling_factor > 0,
        s > 0 ==> 0 <= task.trunk_frames(s) <= usize::MAX,
    ensures
        ({
            let site = task.site(s);
            let factor = task.stack(s).downsampling_factor as int;
            &&& site.left_context_len == task.metadata.left_context_len@[s]
            &&& site.num_heads == task.metadata.num_heads@[s]
            &&& site.query_head_dim == task.metadata.query_head_dims@[s]
            &&& s == 0 ==> site.frames == task.frames
            &&& s == 0 ==> site.valid_left_context == task.valid_left_context
            &&& s > 0 ==> task.trunk_frames(s) <= site.frames * factor < task.trunk_frames(s)
                + factor
            &&& s > 0 ==> task.valid_left_context <= site.valid_left_context * factor
                < task.valid_left_context + factor
        }),
{
    if s > 0 {
        let factor = task.stack(s).downsampling_factor as int;
        law_groups_hold_all_rows(task.trunk_frames(s), factor);
        law_groups_hold_all_rows(task.valid_left_context as int, factor);
    }
}

} // verus!
