//! Graphs that are planned, computed elsewhere, and finished.

use vstd::prelude::*;
use vstd::string::StringExecFns;
use crate::attention_graph::attention_weights_refusal;
use crate::encoder_binding::{float_leaf, layer_shape};
use crate::encoder_error::{of_shape, outcome, shape_error, Refusal, XasrEncoderGraphError};
use crate::encoder_graph::XasrZipformerEncoderGraph;
use crate::encoder_plan::{
    build_layers, layer_built, layer_marks, layers_refusal, layers_value,
    lemma_layer_built_in_grown, lemma_layers_in_grown, PlanParts, StackSite,
    XasrZipformerLayerGraphUpload,
};
use crate::encoder_rows::{rows_refusal, validate_rows_len, XasrEncoderGraphOutput};
use crate::encoder_session::input_value;
use crate::encoder_tables::shape_outcome;
use crate::encoder_upload::{floats, layer_cache_view, layer_upload_refusal};
use crate::encoder_weights::{XasrEncoderStackWeights, XasrEncoderWeights};
use crate::float_ops;
use crate::float_ops::FloatOps;
use crate::full_encoder::XasrFullEncoderGraphParts;
use crate::full_upload::upload_layers;
use crate::graph;
use crate::graph::{EffectView, GgmlCpuGraphBuilder, GgmlCpuTensor};
use crate::plan_spans::{lemma_apart_empty, lemma_apart_layers, parts_apart};
use crate::tensor_value::TensorValue;
use crate::text;
use crate::text::decimal;
use crate::zipformer_graph;

verus! {

/// A graph for the first stack and what to read back from it.
#[derive(Debug)]
pub struct Stack0Run {
    pub input: GgmlCpuTensor,
    pub parts: XasrFullEncoderGraphParts,
    pub output: GgmlCpuTensor,
    pub output_len: usize,
    pub frames: usize,
    pub dim: usize,
}

impl XasrZipformerEncoderGraph {
    /// Why rows cannot enter the first stack.
    pub open spec fn stack0_input_refusal(
        self,
        count: int,
        frames: usize,
        dim: usize,
        valid_left_context: usize,
    ) -> Option<Seq<char>> {
        let stack = self.spec_weights().stacks@[0];
        let rows = rows_refusal(count, frames, dim, "stack0 input"@);
        if self.stack0_refusal() is Some {
            self.stack0_refusal()
        } else if dim != stack.dim {
            Some(
                "stack0 input dim "@ + decimal(dim as nat) + " does not match stack dim "@
                    + decimal(stack.dim as nat),
            )
        } else if rows is Some {
            rows
        } else if valid_left_context == 0 {
            Some("stack0 valid_left_context must be > 0"@)
        } else {
            None
        }
    }

    /// Checks that rows can enter the first stack.
    pub fn check_stack0_input(
        &self,
        rows: &[u32],
        frames: usize,
        dim: usize,
        valid_left_context: usize,
    ) -> (result: Result<(), XasrEncoderGraphError>)
        ensures
            shape_outcome(
                result,
                self.stack0_input_refusal(rows@.len() as int, frames, dim, valid_left_context),
            ),
    {
        let stack = self.stack0()?;
        if dim != stack.dim {
            let mut reason = text::copy_text("stack0 input dim ");
            text::push_number(&mut reason, dim);
            reason.append(" does not match stack dim ");
            text::push_number(&mut reason, stack.dim);
            return Err(XasrEncoderGraphError::Shape { reason });
        }
        validate_rows_len(rows, frames, dim, "stack0 input")?;
        if valid_left_context == 0 {
            return Err(shape_error("stack0 valid_left_context must be > 0"));
        }
        Ok(())
    }

    /// Where the layers of the first stack stand.
    pub open spec fn stack0_site(self, frames: usize, valid_left_context: usize) -> StackSite {
        StackSite {
            stack_index: 0,
            frames,
            valid_left_context,
            left_context_len: self.spec_metadata().left_context_len@[0],
            num_heads: self.spec_metadata().num_heads@[0],
            query_head_dim: self.spec_metadata().query_head_dims@[0],
        }
    }

    /// Why a layer of the first stack is refused.
    pub open spec fn stack0_layers_refusal(
        self,
        frames: usize,
        valid_left_context: usize,
    ) -> Option<
        Refusal,
    > {
        layers_refusal(
            self.spec_weights().stacks@[0],
            self.stack0_site(frames, valid_left_context),
            "stack0_layer_alloc"@,
            "stack0_layer_graph"@,
            self.spec_weights().stacks@[0].layers@.len() as int,
        )
    }

    /// Why one of the first `count` layers of the first stack cannot be
    /// uploaded.
    pub open spec fn stack0_upload_refusal(
        self,
        frames: usize,
        valid_left_context: usize,
        count: int,
    ) -> Option<Seq<char>>
        decreases count,
    {
        let stack = self.spec_weights().stacks@[0];
        let site = self.stack0_site(frames, valid_left_context);
        if count <= 0 {
            None
        } else if self.stack0_upload_refusal(frames, valid_left_context, count - 1) is Some {
            self.stack0_upload_refusal(frames, valid_left_context, count - 1)
        } else {
            layer_upload_refusal(
                stack.layers@[count - 1],
                layer_shape(
                    stack.layers@[count - 1],
                    stack.dim,
                    frames,
                    site.left_context_len,
                    site.num_heads,
                    site.query_head_dim,
                ),
                valid_left_context,
                layer_cache_view(None),
            )
        }
    }

    /// Why the first stack cannot be planned.
    pub open spec fn stack0_plan_refusal(
        self,
        count: int,
        frames: usize,
        dim: usize,
        valid_left_context: usize,
    ) -> Option<Refusal> {
        let input = self.stack0_input_refusal(count, frames, dim, valid_left_context);
        let layers = self.stack0_layers_refusal(frames, valid_left_context);
        if input is Some {
            of_shape(input)
        } else if self.spec_config() is None {
            Some(Refusal::Shape { reason: "GGML stack0 backend requires a graph config"@ })
        } else if layers is Some {
            layers
        } else {
            of_shape(
                self.stack0_upload_refusal(
                    frames,
                    valid_left_context,
                    self.spec_weights().stacks@[0].layers@.len() as int,
                ),
            )
        }
    }

    /// The first stack stands in the graph.
    pub open spec fn stack0_planned(
        self,
        graph: GgmlCpuGraphBuilder,
        frames: usize,
        dim: usize,
        valid_left_context: usize,
        run: Stack0Run,
    ) -> bool {
        let stack = self.spec_weights().stacks@[0];
        let layers = run.parts@.layers;
        let x = input_value(run.input, frames, dim);
        &&& graph.has_dense(run.input)
        &&& graph.value(run.input) == x
        &&& run.parts@.downsamples.len() == 0
        &&& run.parts@.combiners.len() == 0
        &&& layers.len() == stack.layers@.len()
        &&& parts_apart(run.parts@, run.input.id + 1, graph@.len() as int)
        &&& forall|i: int|
            0 <= i < layers.len() ==> #[trigger] layer_built(
                graph,
                x,
                stack,
                self.stack0_site(frames, valid_left_context),
                layers,
                0,
                i,
            )
        &&& graph.has_dense(run.output)
        &&& graph.value(run.output) == layers_value(graph, x, layers, 0, layers.len() as int)
        &&& run.output_len == frames * dim
        &&& run.frames == frames
        &&& run.dim == dim
    }

    proof fn lemma_stack0_upload_refusal(
        self,
        graph: GgmlCpuGraphBuilder,
        x: TensorValue,
        parts: PlanParts,
        frames: usize,
        valid_left_context: usize,
        count: int,
    )
        requires
            0 <= count <= parts.layers.len(),
            forall|i: int|
                0 <= i < parts.layers.len() ==> #[trigger] layer_built(
                    graph,
                    x,
                    self.spec_weights().stacks@[0],
                    self.stack0_site(frames, valid_left_context),
                    parts.layers,
                    0,
                    i,
                ),
        ensures
            parts.layers_refusal(self.spec_weights(), None, count) == self.stack0_upload_refusal(
                frames,
                valid_left_context,
                count,
            ),
        decreases count,
    {
        if count > 0 {
            self.lemma_stack0_upload_refusal(
                graph,
                x,
                parts,
                frames,
                valid_left_context,
                count - 1,
            );
            assert(layer_built(
                graph,
                x,
                self.spec_weights().stacks@[0],
                self.stack0_site(frames, valid_left_context),
                parts.layers,
                0,
                count - 1,
            ));
        }
    }

    /// Plans the first stack.
    #[verifier::spinoff_prover]
    #[verifier::rlimit(40)]
    pub fn plan_stack0<O: FloatOps>(
        &self,
        ops: &O,
        graph: &mut GgmlCpuGraphBuilder,
        rows: &[u32],
        frames: usize,
        dim: usize,
        valid_left_context: usize,
    ) -> (result: Result<Stack0Run, XasrEncoderGraphError>)
        requires
            self.wf(),
            self.complete(),
        ensures
            outcome(
                result,
                self.stack0_plan_refusal(rows@.len() as int, frames, dim, valid_left_context),
            ),
            final(graph).builds_on(*old(graph)),
            result is Ok ==> {
                let run = result->Ok_0;
                &&& self.stack0_planned(*final(graph), frames, dim, valid_left_context, run)
                &&& run.input.id == old(graph)@.len()
                &&& final(graph).recorded()[run.input.id as int] == float_leaf(
                    dim,
                    frames,
                    1,
                    1,
                    "stack0_input",
                )
                &&& float_ops::functional(ops) ==> final(graph).pending()
                    == run.parts@.layers_uploads(
                    float_ops::model(ops),
                    layer_marks(
                        old(graph).pending().push(
                            (EffectView::SetInput { tensor: run.input.id as int }),
                        ),
                        run.parts@.layers,
                        0,
                        run.parts@.layers.len() as int,
                        false,
                    ).push((EffectView::SetOutput { tensor: run.output.id as int })).push(
                        floats(run.input, rows@, "stack0_input"@),
                    ),
                    self.spec_weights(),
                    None,
                    run.parts@.layers.len() as int,
                )
            },
    {
        self.check_stack0_input(rows, frames, dim, valid_left_context)?;
        if self.config().is_none() {
            return Err(shape_error("GGML stack0 backend requires a graph config"));
        }
        let weights = self.weights();
        let metadata = self.metadata();
        let stack = &weights.stacks[0];
        let ghost site = self.stack0_site(frames, valid_left_context);
        let input = graph.new_tensor_2d_f32(dim, frames, "stack0_input");
        graph.set_input(input);
        let ghost x = input_value(input, frames, dim);
        proof {
            old(graph).lemma_view_len();
        }
        let mut layers: Vec<XasrZipformerLayerGraphUpload> = Vec::new();
        let output = build_layers(
            graph,
            stack,
            0,
            metadata.left_context_len[0],
            metadata.num_heads[0],
            metadata.query_head_dims[0],
            input,
            frames,
            valid_left_context,
            false,
            "stack0_layer_alloc",
            "stack0_layer_graph",
            &mut layers,
        )?;
        let ghost g1 = *graph;
        let parts = XasrFullEncoderGraphParts {
            layer_uploads: layers,
            downsample_uploads: Vec::new(),
            out_combiner_uploads: Vec::new(),
        };
        graph.set_output(output);
        graph.set_f32_slice(input, rows, "stack0_input");
        let ghost g2 = *graph;
        proof {
            self.lemma_stack0_upload_refusal(
                g1,
                x,
                parts@,
                frames,
                valid_left_context,
                parts@.layers.len() as int,
            );
            lemma_built_layers_fit(g1, g2, x, *weights, *stack, site, parts@);
            let none = PlanParts {
                layers: Seq::empty(),
                downsamples: Seq::empty(),
                combiners: Seq::empty(),
            };
            lemma_apart_empty(none, input.id + 1);
            assert(parts@.downsamples =~= none.downsamples);
            assert(parts@.combiners =~= none.combiners);
            lemma_apart_layers(none, parts@, input.id + 1, input.id + 1, g1@.len() as int);
        }
        upload_layers(ops, graph, weights, &parts, None)?;
        proof {
            lemma_run_in_grown(g1, *graph, x, *stack, site, parts@.layers);
        }
        let output_len = match frames.checked_mul(dim) {
            Some(len) => len,
            None => return Err(shape_error("stack0 output shape overflows")),
        };
        Ok(Stack0Run { input, parts, output, output_len, frames, dim })
    }

    /// The rows of the first stack.
    pub fn finish_stack0(
        run: &Stack0Run,
        outputs: Vec<Vec<u32>>,
    ) -> (output: XasrEncoderGraphOutput)
        requires
            outputs@.len() >= 1,
        ensures
            output.frames == run.frames,
            output.dim == run.dim,
            output.rows == outputs@[0],
    {
        let mut outputs = outputs;
        let rows = outputs.remove(0);
        XasrEncoderGraphOutput { frames: run.frames, dim: run.dim, rows }
    }
}

/// Built layers belong to their graph and to the weights.
proof fn lemma_built_layers_fit(
    graph: GgmlCpuGraphBuilder,
    after: GgmlCpuGraphBuilder,
    x: TensorValue,
    weights: XasrEncoderWeights,
    stack: XasrEncoderStackWeights,
    site: StackSite,
    parts: PlanParts,
)
    requires
        weights.stacks@.len() > 0,
        stack == weights.stacks@[0],
        site.stack_index == 0,
        parts.layers.len() == stack.layers@.len(),
        after@ == graph@,
        forall|i: int|
            0 <= i < parts.layers.len() ==> #[trigger] layer_built(
                graph,
                x,
                stack,
                site,
                parts.layers,
                0,
                i,
            ),
    ensures
        forall|i: int|
            0 <= i < parts.layers.len() ==> #[trigger] parts.layer_fits(after, weights, i),
{
    reveal(zipformer_graph::layer_refusal);
    reveal(attention_weights_refusal);
    reveal(zipformer_graph::XasrZipformerLayerGraphTensors::within);
    assert forall|i: int| 0 <= i < parts.layers.len() implies #[trigger] parts.layer_fits(
        after,
        weights,
        i,
    ) by {
        assert(layer_built(graph, x, stack, site, parts.layers, 0, i));
    }
}

/// Built layers stay built while the graph grows.
proof fn lemma_run_in_grown(
    before: GgmlCpuGraphBuilder,
    after: GgmlCpuGraphBuilder,
    x: TensorValue,
    stack: XasrEncoderStackWeights,
    site: StackSite,
    layers: Seq<XasrZipformerLayerGraphUpload>,
)
    requires
        after.builds_on(before),
        forall|i: int|
            0 <= i < layers.len() ==> #[trigger] layer_built(
                before,
                x,
                stack,
                site,
                layers,
                0,
                i,
            ),
    ensures
        forall|i: int|
            0 <= i < layers.len() ==> #[trigger] layer_built(after, x, stack, site, layers, 0, i),
        layers_value(after, x, layers, 0, layers.len() as int) == layers_value(
            before,
            x,
            layers,
            0,
            layers.len() as int,
        ),
{
    assert forall|i: int| 0 <= i < layers.len() implies (
    #[trigger] layers[i]).binding.tensors.within(before) by {
        assert(layer_built(before, x, stack, site, layers, 0, i));
    }
    lemma_layers_in_grown(before, after, x, layers, layers, 0, layers.len() as int);
    assert forall|i: int| 0 <= i < layers.len() implies #[trigger] layer_built(
        after,
        x,
        stack,
        site,
        layers,
        0,
        i,
    ) by {
        assert(layer_built(before, x, stack, site, layers, 0, i));
        lemma_layer_built_in_grown(before, after, x, stack, site, layers, layers, 0, i);
    }
}

} // verus!
