//! A recorder for ggml graphs.
//!
//! The builder keeps the tensor operations of one graph in the order in which
//! they were asked for, and beside them what is to be marked and uploaded.  A
//! backend replays both lists.  The view of a builder is the list of values
//! that its tensors denote.

use vstd::prelude::*;
use crate::tensor_value::{ConvParams, Shape4, TensorValue};

verus! {

/// Failure to build a graph.
#[derive(Clone, Copy, Debug, PartialEq, Eq)]
pub enum GgmlCpuGraphError {
    /// The dimensions or tensors that were passed cannot be used.
    UnsupportedInputs { reason: &'static str },
}

/// Handle of a tensor of one builder.
#[derive(Clone, Copy, Debug, PartialEq, Eq, Structural)]
pub struct GgmlCpuTensor {
    pub id: usize,
}

/// Element type of a leaf tensor.
#[derive(Clone, Copy, Debug, PartialEq, Eq, Structural)]
pub enum LeafType {
    /// 32-bit floats.
    Float,
    /// 32-bit integers.
    Integer,
    /// A matrix operand stored in the ggml type with this number.
    Stored { ggml_type: u32 },
}

/// One recorded tensor operation.  Operands are handles of earlier tensors.
#[derive(Debug)]
pub enum GraphNode {
    Leaf { shape: Shape4, leaf_type: LeafType, name: &'static str },
    View2d { src: usize, ne0: usize, ne1: usize, nb1: usize, offset: usize },
    View4d {
        src: usize,
        shape: Shape4,
        nb1: usize,
        nb2: usize,
        nb3: usize,
        offset: usize,
    },
    Cont { src: usize },
    Reshape { src: usize, shape: Shape4 },
    Concat { first: usize, second: usize, dim: usize },
    Transpose { src: usize },
    PlanesToRows { src: usize },
    MulMat { weight: usize, input: usize },
    Add { left: usize, right: usize },
    Sub { left: usize, right: usize },
    Mul { left: usize, right: usize },
    Div { left: usize, right: usize },
    Scale { src: usize, factor: u32 },
    ScaleByExp { src: usize, exponent: u32 },
    Sqr { src: usize },
    Sqrt { src: usize },
    MeanRows { src: usize },
    Softplus { src: usize },
    Sigmoid { src: usize },
    Tanh { src: usize },
    Relu { src: usize },
    SoftMaxExt { src: usize, mask: Option<usize>, scale: u32, max_bias: u32 },
    Conv2d { kernel: usize, input: usize, params: ConvParams },
    DepthwiseConv2d { kernel: usize, input: usize, params: ConvParams },
    GetRows { table: usize, rows: usize },
    ArgMaxRows { src: usize },
    Cpy { src: usize, dst: usize },
}

/// What is done with a tensor once its graph stands.
#[derive(Debug)]
pub enum GraphEffect {
    SetInput { tensor: usize },
    SetOutput { tensor: usize },
    SideEffectRoot { tensor: usize },
    UploadFloats { tensor: usize, values: Vec<u32>, name: &'static str },
    UploadIntegers { tensor: usize, integers: Vec<i32>, name: &'static str },
    UploadBytes { tensor: usize, bytes: Vec<u8>, ggml_type: u32, name: &'static str },
}

/// A `GraphEffect` by its contents.
#[verifier::ext_equal]
pub enum EffectView {
    SetInput { tensor: int },
    SetOutput { tensor: int },
    SideEffectRoot { tensor: int },
    UploadFloats { tensor: int, values: Seq<u32>, name: Seq<char> },
    UploadIntegers { tensor: int, integers: Seq<i32>, name: Seq<char> },
    UploadBytes { tensor: int, bytes: Seq<u8>, ggml_type: u32, name: Seq<char> },
}

impl View for GraphEffect {
    type V = EffectView;

    open spec fn view(&self) -> EffectView {
        match *self {
            GraphEffect::SetInput { tensor } => EffectView::SetInput { tensor: tensor as int },
            GraphEffect::SetOutput { tensor } => EffectView::SetOutput { tensor: tensor as int },
            GraphEffect::SideEffectRoot { tensor } => EffectView::SideEffectRoot {
                tensor: tensor as int,
            },
            GraphEffect::UploadFloats { tensor, values, name } => EffectView::UploadFloats {
                tensor: tensor as int,
                values: values@,
                name: name@,
            },
            GraphEffect::UploadIntegers { tensor, integers, name } => EffectView::UploadIntegers {
                tensor: tensor as int,
                integers: integers@,
                name: name@,
            },
            GraphEffect::UploadBytes { tensor, bytes, ggml_type, name } => EffectView::UploadBytes {
                tensor: tensor as int,
                bytes: bytes@,
                ggml_type,
                name: name@,
            },
        }
    }
}

/// The value that a node denotes, given the values of the tensors before it.
pub open spec fn node_value(earlier: Seq<TensorValue>, node: GraphNode) -> TensorValue {
    match node {
        GraphNode::Leaf { shape, .. } => TensorValue::leaf(earlier.len() as int, shape),
        GraphNode::View2d { src, ne0, ne1, nb1, offset } => earlier[src as int].strided(
            ne0 as int,
            ne1 as int,
            1,
            1,
            nb1 as int,
            nb1 * ne1,
            nb1 * ne1,
            offset as int,
        ),
        GraphNode::View4d { src, shape, nb1, nb2, nb3, offset } => earlier[src as int].strided(
            shape.ne0 as int,
            shape.ne1 as int,
            shape.ne2 as int,
            shape.ne3 as int,
            nb1 as int,
            nb2 as int,
            nb3 as int,
            offset as int,
        ),
        GraphNode::Cont { src } => earlier[src as int].cont(),
        GraphNode::Reshape { src, shape } => earlier[src as int].reshaped(
            shape.ne0 as int,
            shape.ne1 as int,
            shape.ne2 as int,
            shape.ne3 as int,
        ),
        GraphNode::Concat { first, second, dim } => earlier[first as int].concat(
            earlier[second as int],
            dim as int,
        ),
        GraphNode::Transpose { src } => earlier[src as int].transposed(),
        GraphNode::PlanesToRows { src } => earlier[src as int].planes_to_rows(),
        GraphNode::MulMat { weight, input } => earlier[weight as int].mul_mat(earlier[input as int]),
        GraphNode::Add { left, right } => earlier[left as int].plus(earlier[right as int]),
        GraphNode::Sub { left, right } => earlier[left as int].minus(earlier[right as int]),
        GraphNode::Mul { left, right } => earlier[left as int].times(earlier[right as int]),
        GraphNode::Div { left, right } => earlier[left as int].over(earlier[right as int]),
        GraphNode::Scale { src, factor } => earlier[src as int].scaled(factor),
        GraphNode::ScaleByExp { src, exponent } => earlier[src as int].scaled_by_exp(exponent),
        GraphNode::Sqr { src } => earlier[src as int].squared(),
        GraphNode::Sqrt { src } => earlier[src as int].square_root(),
        GraphNode::MeanRows { src } => earlier[src as int].mean_rows(),
        GraphNode::Softplus { src } => earlier[src as int].softplus(),
        GraphNode::Sigmoid { src } => earlier[src as int].sigmoid(),
        GraphNode::Tanh { src } => earlier[src as int].tanh(),
        GraphNode::Relu { src } => earlier[src as int].relu(),
        GraphNode::SoftMaxExt { src, mask, scale, max_bias } => earlier[src as int].soft_max(
            match mask {
                Some(m) => Some(earlier[m as int]),
                None => None,
            },
            scale,
            max_bias,
        ),
        GraphNode::Conv2d { kernel, input, params } => earlier[kernel as int].conv_2d(
            earlier[input as int],
            params,
        ),
        GraphNode::DepthwiseConv2d { kernel, input, params } => earlier[kernel as int].depthwise_conv_2d(
            earlier[input as int],
            params,
        ),
        GraphNode::GetRows { table, rows } => earlier[table as int].gathered(earlier[rows as int]),
        GraphNode::ArgMaxRows { src } => earlier[src as int].arg_max_rows(),
        GraphNode::Cpy { src, dst } => earlier[src as int].copied_into(earlier[dst as int]),
    }
}

/// The values that a list of nodes denotes, in order.
pub open spec fn denote(nodes: Seq<GraphNode>) -> Seq<TensorValue>
    decreases nodes.len(),
{
    if nodes.len() == 0 {
        Seq::empty()
    } else {
        let earlier = denote(nodes.drop_last());
        earlier.push(node_value(earlier, nodes.last()))
    }
}

/// `later` starts with the tensors of `earlier`.
pub open spec fn extends(earlier: Seq<TensorValue>, later: Seq<TensorValue>) -> bool {
    &&& earlier.len() <= later.len()
    &&& forall|i: int| 0 <= i < earlier.len() ==> #[trigger] later[i] == earlier[i]
}

/// `later` starts with the operations of `earlier`.
pub open spec fn nodes_extend(earlier: Seq<GraphNode>, later: Seq<GraphNode>) -> bool {
    &&& earlier.len() <= later.len()
    &&& forall|i: int| 0 <= i < earlier.len() ==> #[trigger] later[i] == earlier[i]
}

/// The effects by their contents.
pub open spec fn effect_views(effects: Seq<GraphEffect>) -> Seq<EffectView> {
    effects.map_values(|e: GraphEffect| e@)
}

pub proof fn lemma_denote_len(nodes: Seq<GraphNode>)
    ensures
        denote(nodes).len() == nodes.len(),
    decreases nodes.len(),
{
    if nodes.len() > 0 {
        lemma_denote_len(nodes.drop_last());
    }
}

pub proof fn lemma_denote_push(nodes: Seq<GraphNode>, node: GraphNode)
    ensures
        denote(nodes.push(node)) == denote(nodes).push(node_value(denote(nodes), node)),
        denote(nodes).len() == nodes.len(),
        denote(nodes.push(node)).len() == nodes.len() + 1,
{
    lemma_denote_len(nodes);
    lemma_denote_len(nodes.push(node));
    assert(nodes.push(node).drop_last() =~= nodes);
}

/// A node denotes its value over the nodes before it.
pub proof fn lemma_denote_at(nodes: Seq<GraphNode>, i: int)
    requires
        0 <= i < nodes.len(),
    ensures
        denote(nodes)[i] == node_value(denote(nodes.take(i)), nodes[i]),
        denote(nodes.take(i)).len() == i,
    decreases nodes.len(),
{
    lemma_denote_len(nodes.drop_last());
    lemma_denote_len(nodes.take(i));
    if i < nodes.len() - 1 {
        lemma_denote_at(nodes.drop_last(), i);
        assert(nodes.drop_last().take(i) =~= nodes.take(i));
    } else {
        assert(nodes.take(i) =~= nodes.drop_last());
    }
}

/// Records one graph.
pub struct GgmlCpuGraphBuilder {
    nodes: Vec<GraphNode>,
    effects: Vec<GraphEffect>,
}

impl View for GgmlCpuGraphBuilder {
    type V = Seq<TensorValue>;

    closed spec fn view(&self) -> Seq<TensorValue> {
        denote(self.nodes@)
    }
}

impl GgmlCpuGraphBuilder {
    /// The operations recorded so far.
    pub closed spec fn recorded(self) -> Seq<GraphNode> {
        self.nodes@
    }

    /// The marks and uploads recorded so far.
    pub closed spec fn pending(self) -> Seq<EffectView> {
        effect_views(self.effects@)
    }

    /// `tensor` belongs to this graph.
    pub open spec fn has(self, tensor: GgmlCpuTensor) -> bool {
        tensor.id < self@.len()
    }

    /// `tensor` belongs to this graph and its elements are dense.
    pub open spec fn has_dense(self, tensor: GgmlCpuTensor) -> bool {
        tensor.id < self@.len() && self@[tensor.id as int].dense
    }

    /// The value of `tensor`.
    pub open spec fn value(self, tensor: GgmlCpuTensor) -> TensorValue {
        self@[tensor.id as int]
    }

    /// This graph is `earlier` with further operations.
    pub open spec fn builds_on(self, earlier: GgmlCpuGraphBuilder) -> bool {
        &&& extends(earlier@, self@)
        &&& nodes_extend(earlier.recorded(), self.recorded())
    }

    /// This graph is `earlier` with further operations, and the same effects.
    pub open spec fn grew_from(self, earlier: GgmlCpuGraphBuilder) -> bool {
        &&& self.builds_on(earlier)
        &&& self.pending() == earlier.pending()
    }

    /// This graph is `earlier` with one more operation, which denotes `value`.
    pub open spec fn recorded_after(
        self,
        earlier: GgmlCpuGraphBuilder,
        tensor: GgmlCpuTensor,
        value: TensorValue,
    ) -> bool {
        &&& tensor.id == earlier@.len()
        &&& self@ == earlier@.push(value)
        &&& nodes_extend(earlier.recorded(), self.recorded())
        &&& self.pending() == earlier.pending()
    }

    /// The view and the recorded operations are as many.
    pub proof fn lemma_view_len(&self)
        ensures
            self@.len() == self.recorded().len(),
            self@.len() <= usize::MAX,
            self@ == denote(self.recorded()),
    {
        assert(self.nodes.len() == self.nodes@.len());
        lemma_denote_len(self.nodes@);
    }

    /// A leaf holds what is uploaded into it.
    pub proof fn lemma_leaf_value(&self, id: int)
        requires
            0 <= id < self.recorded().len(),
        ensures
            self.recorded()[id] matches GraphNode::Leaf { shape, .. } ==> self@[id]
                == TensorValue::leaf(id, shape),
    {
        self.lemma_view_len();
        lemma_denote_at(self.recorded(), id);
    }

    /// An empty graph.
    pub fn new() -> (graph: Self)
        ensures
            graph@ == Seq::<TensorValue>::empty(),
            graph.recorded() == Seq::<GraphNode>::empty(),
            graph.pending() == Seq::<EffectView>::empty(),
    {
        let graph = GgmlCpuGraphBuilder { nodes: Vec::new(), effects: Vec::new() };
        assert(effect_views(graph.effects@) =~= Seq::<EffectView>::empty());
        graph
    }

    /// The recorded operations, for a backend to replay.
    pub fn nodes(&self) -> (nodes: &Vec<GraphNode>)
        ensures
            nodes@ == self.recorded(),
    {
        &self.nodes
    }

    /// The recorded marks and uploads, for a backend to replay.
    pub fn effects(&self) -> (effects: &Vec<GraphEffect>)
        ensures
            effect_views(effects@) == self.pending(),
    {
        &self.effects
    }

    /// Forgets the marks and uploads, which have been performed.
    pub fn clear_effects(&mut self)
        ensures
            final(self)@ == old(self)@,
            final(self).recorded() == old(self).recorded(),
            final(self).pending() == Seq::<EffectView>::empty(),
    {
        self.effects = Vec::new();
        assert(effect_views(self.effects@) =~= Seq::<EffectView>::empty());
    }

    fn record(&mut self, node: GraphNode) -> (tensor: GgmlCpuTensor)
        ensures
            final(self).recorded() == old(self).recorded().push(node),
            final(self).recorded_after(*old(self), tensor, node_value(old(self)@, node)),
    {
        let id: usize = self.nodes.len();
        proof {
            lemma_denote_push(self.nodes@, node);
        }
        self.nodes.push(node);
        GgmlCpuTensor { id }
    }

    fn note(&mut self, effect: GraphEffect)
        ensures
            final(self)@ == old(self)@,
            final(self).recorded() == old(self).recorded(),
            final(self).pending() == old(self).pending().push(effect@),
    {
        let ghost before = self.effects@;
        self.effects.push(effect);
        assert(effect_views(self.effects@) =~= effect_views(before).push(effect@));
    }

    /// A new float vector.
    pub fn new_tensor_1d_f32(&mut self, ne0: usize, name: &'static str) -> (tensor: GgmlCpuTensor)
        ensures
            tensor.id == old(self)@.len(),
            final(self).recorded() == old(self).recorded().push(
                (
                    GraphNode::Leaf {
                        shape: (Shape4 { ne0, ne1: 1, ne2: 1, ne3: 1 }),
                        leaf_type: LeafType::Float,
                        name,
                    }
                ),
            ),
            final(self).recorded_after(
                *old(self),
                tensor,
                TensorValue::leaf(old(self)@.len() as int, (Shape4 { ne0, ne1: 1, ne2: 1, ne3: 1 })),
            ),
    {
        self.record(
            GraphNode::Leaf {
                shape: (Shape4 { ne0, ne1: 1, ne2: 1, ne3: 1 }),
                leaf_type: LeafType::Float,
                name,
            },
        )
    }

    /// A new float matrix.
    pub fn new_tensor_2d_f32(
        &mut self,
        ne0: usize,
        ne1: usize,
        name: &'static str,
    ) -> (tensor: GgmlCpuTensor)
        ensures
            tensor.id == old(self)@.len(),
            final(self).recorded() == old(self).recorded().push(
                (
                    GraphNode::Leaf {
                        shape: (Shape4 { ne0, ne1, ne2: 1, ne3: 1 }),
                        leaf_type: LeafType::Float,
                        name,
                    }
                ),
            ),
            final(self).recorded_after(
                *old(self),
                tensor,
                TensorValue::leaf(old(self)@.len() as int, (Shape4 { ne0, ne1, ne2: 1, ne3: 1 })),
            ),
    {
        self.record(
            GraphNode::Leaf {
                shape: (Shape4 { ne0, ne1, ne2: 1, ne3: 1 }),
                leaf_type: LeafType::Float,
                name,
            },
        )
    }

    /// A new float tensor with three dimensions.
    pub fn new_tensor_3d_f32(
        &mut self,
        ne0: usize,
        ne1: usize,
        ne2: usize,
        name: &'static str,
    ) -> (tensor: GgmlCpuTensor)
        ensures
            tensor.id == old(self)@.len(),
            final(self).recorded() == old(self).recorded().push(
                (
                    GraphNode::Leaf {
                        shape: (Shape4 { ne0, ne1, ne2, ne3: 1 }),
                        leaf_type: LeafType::Float,
                        name,
                    }
                ),
            ),
            final(self).recorded_after(
                *old(self),
                tensor,
                TensorValue::leaf(old(self)@.len() as int, (Shape4 { ne0, ne1, ne2, ne3: 1 })),
            ),
    {
        self.record(
            GraphNode::Leaf {
                shape: (Shape4 { ne0, ne1, ne2, ne3: 1 }),
                leaf_type: LeafType::Float,
                name,
            },
        )
    }

    /// A new float tensor with four dimensions.
    pub fn new_tensor_4d_f32(
        &mut self,
        ne0: usize,
        ne1: usize,
        ne2: usize,
        ne3: usize,
        name: &'static str,
    ) -> (tensor: GgmlCpuTensor)
        ensures
            tensor.id == old(self)@.len(),
            final(self).recorded() == old(self).recorded().push(
                (
                    GraphNode::Leaf {
                        shape: (Shape4 { ne0, ne1, ne2, ne3 }),
                        leaf_type: LeafType::Float,
                        name,
                    }
                ),
            ),
            final(self).recorded_after(
                *old(self),
                tensor,
                TensorValue::leaf(old(self)@.len() as int, (Shape4 { ne0, ne1, ne2, ne3 })),
            ),
    {
        self.record(
            GraphNode::Leaf {
                shape: (Shape4 { ne0, ne1, ne2, ne3 }),
                leaf_type: LeafType::Float,
                name,
            },
        )
    }

    /// A new integer vector.
    pub fn new_tensor_1d_i32(&mut self, ne0: usize, name: &'static str) -> (tensor: GgmlCpuTensor)
        ensures
            tensor.id == old(self)@.len(),
            final(self).recorded() == old(self).recorded().push(
                (
                    GraphNode::Leaf {
                        shape: (Shape4 { ne0, ne1: 1, ne2: 1, ne3: 1 }),
                        leaf_type: LeafType::Integer,
                        name,
                    }
                ),
            ),
            final(self).recorded_after(
                *old(self),
                tensor,
                TensorValue::leaf(old(self)@.len() as int, (Shape4 { ne0, ne1: 1, ne2: 1, ne3: 1 })),
            ),
    {
        self.record(
            GraphNode::Leaf {
                shape: (Shape4 { ne0, ne1: 1, ne2: 1, ne3: 1 }),
                leaf_type: LeafType::Integer,
                name,
            },
        )
    }

    /// A new matrix operand stored in a ggml type.
    pub fn new_matmul_weight_2d_typed(
        &mut self,
        ne0: usize,
        ne1: usize,
        ggml_type: u32,
        name: &'static str,
    ) -> (tensor: GgmlCpuTensor)
        ensures
            tensor.id == old(self)@.len(),
            final(self).recorded() == old(self).recorded().push(
                (
                    GraphNode::Leaf {
                        shape: (Shape4 { ne0, ne1, ne2: 1, ne3: 1 }),
                        leaf_type: (LeafType::Stored { ggml_type }),
                        name,
                    }
                ),
            ),
            final(self).recorded_after(
                *old(self),
                tensor,
                TensorValue::leaf(old(self)@.len() as int, (Shape4 { ne0, ne1, ne2: 1, ne3: 1 })),
            ),
    {
        self.record(
            GraphNode::Leaf {
                shape: (Shape4 { ne0, ne1, ne2: 1, ne3: 1 }),
                leaf_type: (LeafType::Stored { ggml_type }),
                name,
            },
        )
    }

    /// A new leaf of any element type.
    pub fn new_typed_leaf(
        &mut self,
        shape: Shape4,
        leaf_type: LeafType,
        name: &'static str,
    ) -> (tensor: GgmlCpuTensor)
        ensures
            tensor.id == old(self)@.len(),
            final(self).recorded() == old(self).recorded().push(
                (GraphNode::Leaf { shape: shape, leaf_type: leaf_type, name }),
            ),
            final(self).recorded_after(
                *old(self),
                tensor,
                TensorValue::leaf(old(self)@.len() as int, shape),
            ),
    {
        self.record(GraphNode::Leaf { shape: shape, leaf_type: leaf_type, name })
    }

    /// `ne1` rows of `ne0` elements, `nb1` bytes apart, from a byte offset.
    pub fn view_2d(
        &mut self,
        src: GgmlCpuTensor,
        ne0: usize,
        ne1: usize,
        nb1: usize,
        offset: usize,
    ) -> (tensor: GgmlCpuTensor)
        requires
            old(self).has_dense(src),
        ensures
            final(self).recorded_after(
                *old(self),
                tensor,
                old(self).value(src).strided(
                    ne0 as int,
                    ne1 as int,
                    1,
                    1,
                    nb1 as int,
                    nb1 * ne1,
                    nb1 * ne1,
                    offset as int,
                ),
            ),
    {
        self.record(GraphNode::View2d { src: src.id, ne0, ne1, nb1, offset })
    }

    /// A strided view with four dimensions.
    pub fn view_4d(
        &mut self,
        src: GgmlCpuTensor,
        shape: Shape4,
        nb1: usize,
        nb2: usize,
        nb3: usize,
        offset: usize,
    ) -> (tensor: GgmlCpuTensor)
        requires
            old(self).has_dense(src),
        ensures
            final(self).recorded_after(
                *old(self),
                tensor,
                old(self).value(src).strided(
                    shape.ne0 as int,
                    shape.ne1 as int,
                    shape.ne2 as int,
                    shape.ne3 as int,
                    nb1 as int,
                    nb2 as int,
                    nb3 as int,
                    offset as int,
                ),
            ),
    {
        self.record(GraphNode::View4d { src: src.id, shape, nb1, nb2, nb3, offset })
    }

    /// A dense copy.
    pub fn cont(&mut self, src: GgmlCpuTensor) -> (tensor: GgmlCpuTensor)
        requires
            old(self).has(src),
        ensures
            final(self).recorded_after(*old(self), tensor, old(self).value(src).cont()),
    {
        self.record(GraphNode::Cont { src: src.id })
    }

    /// The elements as a vector.
    pub fn reshape_1d(&mut self, src: GgmlCpuTensor, ne0: usize) -> (tensor: GgmlCpuTensor)
        requires
            old(self).has_dense(src),
        ensures
            final(self).recorded_after(
                *old(self),
                tensor,
                old(self).value(src).reshaped(ne0 as int, 1, 1, 1),
            ),
    {
        self.record(GraphNode::Reshape { src: src.id, shape: (Shape4 { ne0, ne1: 1, ne2: 1, ne3: 1 }) })
    }

    /// The elements as a matrix.
    pub fn reshape_2d(
        &mut self,
        src: GgmlCpuTensor,
        ne0: usize,
        ne1: usize,
    ) -> (tensor: GgmlCpuTensor)
        requires
            old(self).has_dense(src),
        ensures
            final(self).recorded_after(
                *old(self),
                tensor,
                old(self).value(src).reshaped(ne0 as int, ne1 as int, 1, 1),
            ),
    {
        self.record(GraphNode::Reshape { src: src.id, shape: (Shape4 { ne0, ne1, ne2: 1, ne3: 1 }) })
    }

    /// The elements under three dimensions.
    pub fn reshape_3d(
        &mut self,
        src: GgmlCpuTensor,
        ne0: usize,
        ne1: usize,
        ne2: usize,
    ) -> (tensor: GgmlCpuTensor)
        requires
            old(self).has_dense(src),
        ensures
            final(self).recorded_after(
                *old(self),
                tensor,
                old(self).value(src).reshaped(ne0 as int, ne1 as int, ne2 as int, 1),
            ),
    {
        self.record(GraphNode::Reshape { src: src.id, shape: (Shape4 { ne0, ne1, ne2, ne3: 1 }) })
    }

    /// The elements under four dimensions.
    pub fn reshape_4d(
        &mut self,
        src: GgmlCpuTensor,
        ne0: usize,
        ne1: usize,
        ne2: usize,
        ne3: usize,
    ) -> (tensor: GgmlCpuTensor)
        requires
            old(self).has_dense(src),
        ensures
            final(self).recorded_after(
                *old(self),
                tensor,
                old(self).value(src).reshaped(ne0 as int, ne1 as int, ne2 as int, ne3 as int),
            ),
    {
        self.record(GraphNode::Reshape { src: src.id, shape: (Shape4 { ne0, ne1, ne2, ne3 }) })
    }

    /// `first` followed by `second` along axis `dim`.
    pub fn concat(
        &mut self,
        first: GgmlCpuTensor,
        second: GgmlCpuTensor,
        dim: usize,
    ) -> (tensor: GgmlCpuTensor)
        requires
            old(self).has(first),
            old(self).has(second),
        ensures
            final(self).recorded_after(
                *old(self),
                tensor,
                old(self).value(first).concat(old(self).value(second), dim as int),
            ),
    {
        self.record(GraphNode::Concat { first: first.id, second: second.id, dim })
    }

    /// The first two axes exchanged.
    pub fn transpose(&mut self, src: GgmlCpuTensor) -> (tensor: GgmlCpuTensor)
        requires
            old(self).has(src),
        ensures
            final(self).recorded_after(*old(self), tensor, old(self).value(src).transposed()),
    {
        self.record(GraphNode::Transpose { src: src.id })
    }

    /// The second and third axes exchanged.
    pub fn permute_planes_to_rows(&mut self, src: GgmlCpuTensor) -> (tensor: GgmlCpuTensor)
        requires
            old(self).has(src),
        ensures
            final(self).recorded_after(*old(self), tensor, old(self).value(src).planes_to_rows()),
    {
        self.record(GraphNode::PlanesToRows { src: src.id })
    }

    /// Inner products of the rows of `weight` with the rows of `input`.
    pub fn mul_mat(
        &mut self,
        weight: GgmlCpuTensor,
        input: GgmlCpuTensor,
    ) -> (tensor: GgmlCpuTensor)
        requires
            old(self).has(weight),
            old(self).has(input),
        ensures
            final(self).recorded_after(
                *old(self),
                tensor,
                old(self).value(weight).mul_mat(old(self).value(input)),
            ),
    {
        self.record(GraphNode::MulMat { weight: weight.id, input: input.id })
    }

    /// Elementwise sum; `right` repeats to the shape of `left`.
    pub fn add(&mut self, left: GgmlCpuTensor, right: GgmlCpuTensor) -> (tensor: GgmlCpuTensor)
        requires
            old(self).has(left),
            old(self).has(right),
        ensures
            final(self).recorded_after(
                *old(self),
                tensor,
                old(self).value(left).plus(old(self).value(right)),
            ),
    {
        self.record(GraphNode::Add { left: left.id, right: right.id })
    }

    /// Elementwise difference; `right` repeats to the shape of `left`.
    pub fn sub(&mut self, left: GgmlCpuTensor, right: GgmlCpuTensor) -> (tensor: GgmlCpuTensor)
        requires
            old(self).has(left),
            old(self).has(right),
        ensures
            final(self).recorded_after(
                *old(self),
                tensor,
                old(self).value(left).minus(old(self).value(right)),
            ),
    {
        self.record(GraphNode::Sub { left: left.id, right: right.id })
    }

    /// Elementwise product; `right` repeats to the shape of `left`.
    pub fn mul(&mut self, left: GgmlCpuTensor, right: GgmlCpuTensor) -> (tensor: GgmlCpuTensor)
        requires
            old(self).has(left),
            old(self).has(right),
        ensures
            final(self).recorded_after(
                *old(self),
                tensor,
                old(self).value(left).times(old(self).value(right)),
            ),
    {
        self.record(GraphNode::Mul { left: left.id, right: right.id })
    }

    /// Elementwise quotient; `right` repeats to the shape of `left`.
    pub fn div(&mut self, left: GgmlCpuTensor, right: GgmlCpuTensor) -> (tensor: GgmlCpuTensor)
        requires
            old(self).has(left),
            old(self).has(right),
        ensures
            final(self).recorded_after(
                *old(self),
                tensor,
                old(self).value(left).over(old(self).value(right)),
            ),
    {
        self.record(GraphNode::Div { left: left.id, right: right.id })
    }

    /// Product with a constant.
    pub fn scale(&mut self, src: GgmlCpuTensor, factor: u32) -> (tensor: GgmlCpuTensor)
        requires
            old(self).has(src),
        ensures
            final(self).recorded_after(*old(self), tensor, old(self).value(src).scaled(factor)),
    {
        self.record(GraphNode::Scale { src: src.id, factor })
    }

    /// Product with the exponential of a constant.
    pub fn scale_by_exp(&mut self, src: GgmlCpuTensor, exponent: u32) -> (tensor: GgmlCpuTensor)
        requires
            old(self).has(src),
        ensures
            final(self).recorded_after(*old(self), tensor, old(self).value(src).scaled_by_exp(exponent)),
    {
        self.record(GraphNode::ScaleByExp { src: src.id, exponent })
    }

    /// Elementwise square.
    pub fn sqr(&mut self, src: GgmlCpuTensor) -> (tensor: GgmlCpuTensor)
        requires
            old(self).has(src),
        ensures
            final(self).recorded_after(*old(self), tensor, old(self).value(src).squared()),
    {
        self.record(GraphNode::Sqr { src: src.id })
    }

    /// Elementwise square root.
    pub fn sqrt(&mut self, src: GgmlCpuTensor) -> (tensor: GgmlCpuTensor)
        requires
            old(self).has(src),
        ensures
            final(self).recorded_after(*old(self), tensor, old(self).value(src).square_root()),
    {
        self.record(GraphNode::Sqrt { src: src.id })
    }

    /// Mean of each row.
    pub fn mean_rows(&mut self, src: GgmlCpuTensor) -> (tensor: GgmlCpuTensor)
        requires
            old(self).has(src),
        ensures
            final(self).recorded_after(*old(self), tensor, old(self).value(src).mean_rows()),
    {
        self.record(GraphNode::MeanRows { src: src.id })
    }

    /// Elementwise softplus.
    pub fn softplus(&mut self, src: GgmlCpuTensor) -> (tensor: GgmlCpuTensor)
        requires
            old(self).has(src),
        ensures
            final(self).recorded_after(*old(self), tensor, old(self).value(src).softplus()),
    {
        self.record(GraphNode::Softplus { src: src.id })
    }

    /// Elementwise logistic function.
    pub fn sigmoid(&mut self, src: GgmlCpuTensor) -> (tensor: GgmlCpuTensor)
        requires
            old(self).has(src),
        ensures
            final(self).recorded_after(*old(self), tensor, old(self).value(src).sigmoid()),
    {
        self.record(GraphNode::Sigmoid { src: src.id })
    }

    /// Elementwise hyperbolic tangent.
    pub fn tanh(&mut self, src: GgmlCpuTensor) -> (tensor: GgmlCpuTensor)
        requires
            old(self).has(src),
        ensures
            final(self).recorded_after(*old(self), tensor, old(self).value(src).tanh()),
    {
        self.record(GraphNode::Tanh { src: src.id })
    }

    /// Elementwise positive part.
    pub fn relu(&mut self, src: GgmlCpuTensor) -> (tensor: GgmlCpuTensor)
        requires
            old(self).has(src),
        ensures
            final(self).recorded_after(*old(self), tensor, old(self).value(src).relu()),
    {
        self.record(GraphNode::Relu { src: src.id })
    }

    /// Position of the largest entry of each row.
    pub fn top1_argmax(&mut self, src: GgmlCpuTensor) -> (tensor: GgmlCpuTensor)
        requires
            old(self).has(src),
        ensures
            final(self).recorded_after(*old(self), tensor, old(self).value(src).arg_max_rows()),
    {
        self.record(GraphNode::ArgMaxRows { src: src.id })
    }

    /// Softmax of each row, after scaling and adding the mask.
    pub fn soft_max_ext(
        &mut self,
        src: GgmlCpuTensor,
        mask: Option<GgmlCpuTensor>,
        scale: u32,
        max_bias: u32,
    ) -> (tensor: GgmlCpuTensor)
        requires
            old(self).has(src),
            mask is Some ==> old(self).has(mask->0),
        ensures
            final(self).recorded_after(
                *old(self),
                tensor,
                old(self).value(src).soft_max(
                    match mask {
                        Some(m) => Some(old(self).value(m)),
                        None => None,
                    },
                    scale,
                    max_bias,
                ),
            ),
    {
        let mask_id: Option<usize> = match mask {
            Some(m) => Some(m.id),
            None => None,
        };
        self.record(GraphNode::SoftMaxExt { src: src.id, mask: mask_id, scale, max_bias })
    }

    /// Two-dimensional convolution.
    pub fn conv_2d(
        &mut self,
        kernel: GgmlCpuTensor,
        input: GgmlCpuTensor,
        params: ConvParams,
    ) -> (tensor: GgmlCpuTensor)
        requires
            old(self).has(kernel),
            old(self).has(input),
        ensures
            final(self).recorded_after(
                *old(self),
                tensor,
                old(self).value(kernel).conv_2d(old(self).value(input), params),
            ),
    {
        self.record(GraphNode::Conv2d { kernel: kernel.id, input: input.id, params })
    }

    /// Two-dimensional convolution that keeps channels apart.
    pub fn depthwise_conv_2d(
        &mut self,
        kernel: GgmlCpuTensor,
        input: GgmlCpuTensor,
        params: ConvParams,
    ) -> (tensor: GgmlCpuTensor)
        requires
            old(self).has(kernel),
            old(self).has(input),
        ensures
            final(self).recorded_after(
                *old(self),
                tensor,
                old(self).value(kernel).depthwise_conv_2d(old(self).value(input), params),
            ),
    {
        self.record(GraphNode::DepthwiseConv2d { kernel: kernel.id, input: input.id, params })
    }

    /// The rows of `table` that the entries of `rows` select.
    pub fn get_rows(&mut self, table: GgmlCpuTensor, rows: GgmlCpuTensor) -> (tensor: GgmlCpuTensor)
        requires
            old(self).has(table),
            old(self).has(rows),
        ensures
            final(self).recorded_after(
                *old(self),
                tensor,
                old(self).value(table).gathered(old(self).value(rows)),
            ),
    {
        self.record(GraphNode::GetRows { table: table.id, rows: rows.id })
    }

    /// `src` written into the storage of `dst`.
    pub fn cpy(&mut self, src: GgmlCpuTensor, dst: GgmlCpuTensor) -> (tensor: GgmlCpuTensor)
        requires
            old(self).has(src),
            old(self).has(dst),
        ensures
            final(self).recorded_after(
                *old(self),
                tensor,
                old(self).value(src).copied_into(old(self).value(dst)),
            ),
    {
        self.record(GraphNode::Cpy { src: src.id, dst: dst.id })
    }

    /// Marks a graph input.
    pub fn set_input(&mut self, tensor: GgmlCpuTensor)
        requires
            old(self).has(tensor),
        ensures
            final(self)@ == old(self)@,
            final(self).recorded() == old(self).recorded(),
            final(self).pending() == old(self).pending().push(
                (EffectView::SetInput { tensor: tensor.id as int }),
            ),
    {
        self.note(GraphEffect::SetInput { tensor: tensor.id });
    }

    /// Marks a tensor that must outlive the computation.
    pub fn set_output(&mut self, tensor: GgmlCpuTensor)
        requires
            old(self).has(tensor),
        ensures
            final(self)@ == old(self)@,
            final(self).recorded() == old(self).recorded(),
            final(self).pending() == old(self).pending().push(
                (EffectView::SetOutput { tensor: tensor.id as int }),
            ),
    {
        self.note(GraphEffect::SetOutput { tensor: tensor.id });
    }

    /// Makes the computation run for the sake of `tensor`.
    pub fn add_side_effect_root(&mut self, tensor: GgmlCpuTensor)
        requires
            old(self).has(tensor),
        ensures
            final(self)@ == old(self)@,
            final(self).recorded() == old(self).recorded(),
            final(self).pending() == old(self).pending().push(
                (EffectView::SideEffectRoot { tensor: tensor.id as int }),
            ),
    {
        self.note(GraphEffect::SideEffectRoot { tensor: tensor.id });
    }

    /// Uploads float bit patterns.
    pub fn set_f32_slice(&mut self, tensor: GgmlCpuTensor, values: &[u32], name: &'static str)
        requires
            old(self).has(tensor),
        ensures
            final(self)@ == old(self)@,
            final(self).recorded() == old(self).recorded(),
            final(self).pending() == old(self).pending().push(
                (
                    EffectView::UploadFloats {
                        tensor: tensor.id as int,
                        values: values@,
                        name: name@,
                    }
                ),
            ),
    {
        let copied = copy_slice(values);
        self.note(GraphEffect::UploadFloats { tensor: tensor.id, values: copied, name });
    }

    /// Uploads integers.
    pub fn set_i32_slice(&mut self, tensor: GgmlCpuTensor, integers: &[i32], name: &'static str)
        requires
            old(self).has(tensor),
        ensures
            final(self)@ == old(self)@,
            final(self).recorded() == old(self).recorded(),
            final(self).pending() == old(self).pending().push(
                (
                    EffectView::UploadIntegers {
                        tensor: tensor.id as int,
                        integers: integers@,
                        name: name@,
                    }
                ),
            ),
    {
        let copied = copy_slice(integers);
        self.note(GraphEffect::UploadIntegers { tensor: tensor.id, integers: copied, name });
    }

    /// Uploads the stored bytes of a matrix operand.
    pub fn set_matmul_weight_bytes(
        &mut self,
        tensor: GgmlCpuTensor,
        bytes: &[u8],
        ggml_type: u32,
        name: &'static str,
    )
        requires
            old(self).has(tensor),
        ensures
            final(self)@ == old(self)@,
            final(self).recorded() == old(self).recorded(),
            final(self).pending() == old(self).pending().push(
                (
                    EffectView::UploadBytes {
                        tensor: tensor.id as int,
                        bytes: bytes@,
                        ggml_type,
                        name: name@,
                    }
                ),
            ),
    {
        let copied = copy_slice(bytes);
        self.note(GraphEffect::UploadBytes { tensor: tensor.id, bytes: copied, ggml_type, name });
    }
}

/// The elements of a slice in a vector of their own.
pub fn copy_slice<T: Copy>(values: &[T]) -> (copy: Vec<T>)
    ensures
        copy@ == values@,
{
    let mut copy: Vec<T> = Vec::new();
    let mut i: usize = 0;
    while i < values.len()
        invariant
            i <= values.len(),
            copy@ == values@.take(i as int),
        decreases values.len() - i,
    {
        copy.push(values[i]);
        i = i + 1;
        assert(values@.take(i as int) =~= values@.take(i - 1).push(values@[i - 1]));
    }
    assert(values@.take(i as int) =~= values@);
    copy
}

} // verus!
