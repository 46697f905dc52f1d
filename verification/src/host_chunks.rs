//! What the host makes of a chunk, with what its layers keep of the chunks before.

use vstd::prelude::*;
use crate::encoder_binding::layer_shape;
use crate::encoder_plan::PlanTask;
use crate::encoder_upload::{cache_lengths_refusal, XasrEncoderLayerCache};
use crate::encoder_weights::XasrEncoderLayerWeights;
use crate::float_ops::FloatModel;
use crate::full_upload::cache_at;
use crate::parity_layer::KeptCaches;
use crate::parity_layer_upload::{caches_fit, kept_caches};
use crate::reference_attention::attention_values;
use crate::reference_conv_module::convolution_values;
use crate::reference_encoder::{
    layers_values, output_rows, step_values, tail_values, trunk_values, with_tails, TrunkValues,
};
use crate::reference_layer::{
    back_values, front_values, key_mask, layer_values, LayerCaches, LayerValues,
};
use crate::reference_rows::bypassed;
use crate::reference_scale::{downsampled, padded_rows, upsampled_rows};
use crate::reference_values::{nonlin_values, self_attention_values};
use crate::rows::zero_seq;
use crate::zipformer_graph::XasrZipformerLayerGraphShape;

verus! {

impl PlanTask {
    /// The dimensions of layer `k` of stack `s`.
    pub open spec fn shape_of(self, s: int, k: int) -> XasrZipformerLayerGraphShape {
        let site = self.site(s);
        layer_shape(
            self.stack(s).layers@[k],
            self.stack(s).dim,
            site.frames,
            site.left_context_len,
            site.num_heads,
            site.query_head_dim,
        )
    }

    /// What layer `k` of stack `s` keeps: the caches that the chunk brings for it, or
    /// zeros.
    pub open spec fn kept(
        self,
        caches: Option<Seq<XasrEncoderLayerCache>>,
        s: int,
        k: int,
    ) -> KeptCaches {
        kept_caches(self.shape_of(s, k), cache_at(caches, self.layer_start(s) + k))
    }

    /// The caches have the lengths that the layers ask for.
    pub open spec fn takes_caches(self, caches: Option<Seq<XasrEncoderLayerCache>>) -> bool {
        forall|s: int, k: int|
            0 <= s < self.stack_count() && 0 <= k < self.stack(s).layers@.len() ==> caches_fit(
                self.shape_of(s, k),
                #[trigger] self.kept(caches, s, k),
            )
    }

    /// What layer `k` of stack `s` makes of its rows.
    #[verifier::opaque]
    pub open spec fn host_layer(
        self,
        m: FloatModel,
        caches: Option<Seq<XasrEncoderLayerCache>>,
        s: int,
        k: int,
        rows: Seq<u32>,
    ) -> Result<LayerValues, Seq<char>> {
        let site = self.site(s);
        layer_values(
            m,
            self.stack(s).layers@[k],
            rows,
            site.frames,
            self.stack(s).dim,
            site.num_heads,
            site.query_head_dim,
            site.left_context_len,
            site.valid_left_context,
            self.kept(caches, s, k).given(),
        )
    }

    /// The rows after `n` layers of stack `s`; none where the host refuses one of them.
    pub open spec fn host_layers(
        self,
        m: FloatModel,
        caches: Option<Seq<XasrEncoderLayerCache>>,
        s: int,
        rows: Seq<u32>,
        n: int,
    ) -> Option<Seq<u32>>
        decreases n,
    {
        if n <= 0 {
            Some(rows)
        } else {
            match self.host_layers(m, caches, s, rows, n - 1) {
                None => None,
                Some(before) => match self.host_layer(m, caches, s, n - 1, before) {
                    Err(_) => None,
                    Ok(values) => Some(values.rows),
                },
            }
        }
    }

    /// The rows that the layers of stack `s` get.
    pub open spec fn host_branch(self, m: FloatModel, s: int, trunk: TrunkValues) -> Option<
        Seq<u32>,
    > {
        if s == 0 {
            Some(trunk.rows)
        } else {
            match downsampled(
                m,
                trunk.rows,
                trunk.frames,
                trunk.dim,
                self.stack(s).dim,
                (self.stack(s).downsample_bias->0)@,
            ) {
                Err(_) => None,
                Ok(down) => Some(down),
            }
        }
    }

    /// The rows that the layers of stack `s` give, upsampled and blended with the rows
    /// before the stack.
    pub open spec fn host_blend(
        self,
        m: FloatModel,
        s: int,
        trunk: TrunkValues,
        branch: Seq<u32>,
    ) -> Option<TrunkValues> {
        let stack = self.stack(s);
        let frames = self.trunk_frames(s + 1) as usize;
        if s == 0 {
            Some(TrunkValues { rows: branch, ..trunk })
        } else {
            match bypassed(
                m,
                padded_rows(
                    trunk.rows,
                    trunk.frames as int,
                    trunk.dim as int,
                    stack.dim as int,
                    stack.downsampling_factor as int,
                ),
                upsampled_rows(
                    branch,
                    self.branch_frames(s),
                    stack.dim as int,
                    stack.downsampling_factor as int,
                    frames as int,
                ),
                (stack.out_combiner_bypass_scale->0)@,
                frames,
                stack.dim,
            ) {
                Err(_) => None,
                Ok(rows) => match with_tails(trunk, rows, frames, stack.dim, s) {
                    Err(_) => None,
                    Ok(after) => Some(after),
                },
            }
        }
    }

    /// What stack `s` makes of the rows before it.
    #[verifier::opaque]
    pub open spec fn host_stack(
        self,
        m: FloatModel,
        caches: Option<Seq<XasrEncoderLayerCache>>,
        s: int,
        trunk: TrunkValues,
    ) -> Option<TrunkValues> {
        match self.host_branch(m, s, trunk) {
            None => None,
            Some(input) => match self.host_layers(
                m,
                caches,
                s,
                input,
                self.stack(s).layers@.len() as int,
            ) {
                None => None,
                Some(branch) => self.host_blend(m, s, trunk, branch),
            },
        }
    }

    /// The rows after `count` stacks.
    pub open spec fn host_trunk(
        self,
        m: FloatModel,
        caches: Option<Seq<XasrEncoderLayerCache>>,
        rows: Seq<u32>,
        count: int,
    ) -> Option<TrunkValues>
        decreases count,
    {
        if count <= 0 {
            Some(
                TrunkValues {
                    rows,
                    frames: self.frames,
                    dim: self.dim,
                    tail3: None,
                    tail4: None,
                },
            )
        } else {
            match self.host_trunk(m, caches, rows, count - 1) {
                None => None,
                Some(trunk) => self.host_stack(m, caches, count - 1, trunk),
            }
        }
    }

    /// What the host makes of a chunk; none where it refuses.
    pub open spec fn host_output(
        self,
        m: FloatModel,
        caches: Option<Seq<XasrEncoderLayerCache>>,
        rows: Seq<u32>,
    ) -> Option<Seq<u32>> {
        match self.host_trunk(m, caches, rows, self.stack_count()) {
            None => None,
            Some(trunk) => match output_rows(trunk, self.output_dim()) {
                Err(_) => None,
                Ok((wide, dim)) => match downsampled(
                    m,
                    wide,
                    trunk.frames,
                    dim,
                    self.output_dim(),
                    self.weights.downsample_output_bias@,
                ) {
                    Err(_) => None,
                    Ok(down) => Some(down),
                },
            },
        }
    }

    /// What layer `k` of stack `s` makes of its rows when the chunk has come that far, with
    /// what it keeps for the next chunk.
    pub open spec fn host_values(
        self,
        m: FloatModel,
        caches: Option<Seq<XasrEncoderLayerCache>>,
        rows: Seq<u32>,
        s: int,
        k: int,
    ) -> Option<LayerValues> {
        match self.host_trunk(m, caches, rows, s) {
            None => None,
            Some(trunk) => match self.host_branch(m, s, trunk) {
                None => None,
                Some(input) => match self.host_layers(m, caches, s, input, k) {
                    None => None,
                    Some(before) => match self.host_layer(m, caches, s, k, before) {
                        Err(_) => None,
                        Ok(values) => Some(values),
                    },
                },
            },
        }
    }
}

proof fn lemma_layers_so_far(
    task: PlanTask,
    m: FloatModel,
    caches: Option<Seq<XasrEncoderLayerCache>>,
    s: int,
    rows: Seq<u32>,
    k: int,
    n: int,
)
    requires
        0 <= k < n,
        task.host_layers(m, caches, s, rows, n) is Some,
    ensures
        task.host_layers(m, caches, s, rows, k) is Some,
        task.host_layer(m, caches, s, k, task.host_layers(m, caches, s, rows, k)->0) is Ok,
    decreases n,
{
    if k < n - 1 {
        lemma_layers_so_far(task, m, caches, s, rows, k, n - 1);
    }
}

proof fn lemma_trunk_so_far(
    task: PlanTask,
    m: FloatModel,
    caches: Option<Seq<XasrEncoderLayerCache>>,
    rows: Seq<u32>,
    s: int,
    n: int,
)
    requires
        0 <= s <= n,
        task.host_trunk(m, caches, rows, n) is Some,
    ensures
        task.host_trunk(m, caches, rows, s) is Some,
    decreases n,
{
    if s < n {
        lemma_trunk_so_far(task, m, caches, rows, s, n - 1);
    }
}

/// A chunk that the host takes to its end passes every layer.
pub proof fn law_a_chunk_passes_every_layer(
    task: PlanTask,
    m: FloatModel,
    caches: Option<Seq<XasrEncoderLayerCache>>,
    rows: Seq<u32>,
    s: int,
    k: int,
)
    requires
        task.host_output(m, caches, rows) is Some,
        0 <= s < task.stack_count(),
        0 <= k < task.stack(s).layers@.len(),
    ensures
        task.host_values(m, caches, rows, s, k) is Some,
{
    lemma_trunk_so_far(task, m, caches, rows, s, task.stack_count());
    lemma_trunk_so_far(task, m, caches, rows, s + 1, task.stack_count());
    let trunk = task.host_trunk(m, caches, rows, s)->0;
    assert(task.host_stack(m, caches, s, trunk) is Some);
    reveal(PlanTask::host_stack);
    let input = task.host_branch(m, s, trunk)->0;
    lemma_layers_so_far(task, m, caches, s, input, k, task.stack(s).layers@.len() as int);
}

/// Caches before the first chunk.
pub open spec fn fresh_caches(shape: XasrZipformerLayerGraphShape) -> KeptCaches {
    let head = shape.layer_head;
    let left = head.left_context_len;
    KeptCaches {
        key: zero_seq((left * head.attention().query_dim()) as nat),
        nonlin_attention: zero_seq((left * head.nonlin_hidden_dim) as nat),
        val1: zero_seq((left * head.self1_value_dim) as nat),
        val2: zero_seq((left * shape.self2_value_dim) as nat),
        conv1: zero_seq((head.dim * head.conv1_cache_len) as nat),
        conv2: zero_seq((head.dim * shape.layer_tail.conv_cache_len) as nat),
    }
}

/// A layer that remembers nothing remembers zeros.
proof fn lemma_fresh(
    m: FloatModel,
    layer: XasrEncoderLayerWeights,
    rows: Seq<u32>,
    frames: usize,
    dim: usize,
    num_heads: usize,
    query_head_dim: usize,
    left_context_len: usize,
    valid: usize,
)
    ensures
        layer_values(
            m,
            layer,
            rows,
            frames,
            dim,
            num_heads,
            query_head_dim,
            left_context_len,
            valid,
            LayerCaches::nothing(),
        ) == layer_values(
            m,
            layer,
            rows,
            frames,
            dim,
            num_heads,
            query_head_dim,
            left_context_len,
            valid,
            fresh_caches(
                layer_shape(layer, dim, frames, left_context_len, num_heads, query_head_dim),
            ).given(),
        ),
{
    let shape = layer_shape(layer, dim, frames, left_context_len, num_heads, query_head_dim);
    let fresh = fresh_caches(shape);
    let caches = fresh.given();
    let nothing = LayerCaches::nothing();
    let head = shape.layer_head;
    let left = left_context_len as int;
    let hidden = head.nonlin_hidden_dim as int;
    vstd::arithmetic::div_mod::lemma_fundamental_div_mod_converse(hidden, 1, hidden, 0);
    assert(1 * left * hidden == left * hidden);
    assert(0 <= num_heads * query_head_dim) by (nonlinear_arith);
    assert(0 <= left * (num_heads * query_head_dim)) by (nonlinear_arith)
        requires
            0 <= left,
            0 <= num_heads * query_head_dim,
    ;
    assert(0 <= left * hidden && 0 <= left * head.self1_value_dim && 0 <= left
        * shape.self2_value_dim && 0 <= dim * head.conv1_cache_len && 0 <= dim
        * shape.layer_tail.conv_cache_len) by (nonlinear_arith)
        requires
            0 <= left,
            0 <= hidden,
    ;
    let mask = Some(key_mask(left, frames as int, valid as int));
    assert(attention_values(
        m,
        layer.self_attn_weights,
        rows,
        frames,
        dim,
        num_heads,
        query_head_dim,
        left_context_len,
        None,
        mask,
    ) == attention_values(
        m,
        layer.self_attn_weights,
        rows,
        frames,
        dim,
        num_heads,
        query_head_dim,
        left_context_len,
        Some(fresh.key),
        mask,
    ));
    assert forall|x: Seq<u32>, a: Seq<u32>|
        #[trigger] nonlin_values(
            m,
            layer.nonlin_attention,
            x,
            a,
            frames,
            dim,
            1,
            left_context_len,
            None,
        ) == nonlin_values(
            m,
            layer.nonlin_attention,
            x,
            a,
            frames,
            dim,
            1,
            left_context_len,
            Some(fresh.nonlin_attention),
        ) by {}
    assert forall|x: Seq<u32>, a: Seq<u32>|
        #[trigger] self_attention_values(
            m,
            layer.self_attn1,
            x,
            a,
            frames,
            dim,
            num_heads,
            left_context_len,
            None,
        ) == self_attention_values(
            m,
            layer.self_attn1,
            x,
            a,
            frames,
            dim,
            num_heads,
            left_context_len,
            Some(fresh.val1),
        ) by {}
    assert forall|x: Seq<u32>, a: Seq<u32>|
        #[trigger] self_attention_values(
            m,
            layer.self_attn2,
            x,
            a,
            frames,
            dim,
            num_heads,
            left_context_len,
            None,
        ) == self_attention_values(
            m,
            layer.self_attn2,
            x,
            a,
            frames,
            dim,
            num_heads,
            left_context_len,
            Some(fresh.val2),
        ) by {}
    assert forall|x: Seq<u32>|
        #[trigger] convolution_values(m, layer.conv_module1, x, frames, dim, None, None)
            == convolution_values(
            m,
            layer.conv_module1,
            x,
            frames,
            dim,
            Some(fresh.conv1),
            None,
        ) by {}
    assert forall|x: Seq<u32>|
        #[trigger] convolution_values(m, layer.conv_module2, x, frames, dim, None, None)
            == convolution_values(
            m,
            layer.conv_module2,
            x,
            frames,
            dim,
            Some(fresh.conv2),
            None,
        ) by {}
    assert forall|a: Seq<u32>|
        #[trigger] front_values(
            m,
            layer,
            rows,
            a,
            frames,
            dim,
            num_heads,
            left_context_len,
            nothing,
        ) == front_values(
            m,
            layer,
            rows,
            a,
            frames,
            dim,
            num_heads,
            left_context_len,
            caches,
        ) by {}
    assert forall|mid: Seq<u32>, a: Seq<u32>|
        #[trigger] back_values(
            m,
            layer,
            rows,
            mid,
            a,
            frames,
            dim,
            num_heads,
            left_context_len,
            nothing,
        ) == back_values(
            m,
            layer,
            rows,
            mid,
            a,
            frames,
            dim,
            num_heads,
            left_context_len,
            caches,
        ) by {}
}

/// Where a chunk brings no caches, the layers keep zeros.
pub proof fn lemma_fresh_is_kept(shape: XasrZipformerLayerGraphShape, index: int)
    requires
        cache_lengths_refusal(shape) is None,
        shape.layer_tail.dim == shape.layer_head.dim,
    ensures
        kept_caches(shape, cache_at(None, index)) == fresh_caches(shape),
        caches_fit(shape, fresh_caches(shape)),
{
    let head = shape.layer_head;
    let left = head.left_context_len as int;
    assert(0 <= head.num_heads * head.query_head_dim) by (nonlinear_arith);
    assert(0 <= left * (head.num_heads * head.query_head_dim)) by (nonlinear_arith)
        requires
            0 <= left,
            0 <= head.num_heads * head.query_head_dim,
    ;
    assert(0 <= left * head.nonlin_hidden_dim && 0 <= left * head.self1_value_dim && 0 <= left
        * shape.self2_value_dim && 0 <= head.dim * head.conv1_cache_len && 0 <= head.dim
        * shape.layer_tail.conv_cache_len) by (nonlinear_arith)
        requires
            0 <= left,
    ;
}

/// Layers that get no caches are those of a host that remembers nothing.
proof fn lemma_layers_without_caches(
    task: PlanTask,
    m: FloatModel,
    s: int,
    rows: Seq<u32>,
    n: int,
)
    requires
        0 <= n <= task.stack(s).layers@.len(),
        forall|k: int|
            0 <= k < n ==> cache_lengths_refusal(#[trigger] task.shape_of(s, k)) is None,
    ensures
        ({
            let site = task.site(s);
            let host = layers_values(
                m,
                task.stack(s).layers@,
                rows,
                site.frames,
                task.stack(s).dim,
                site.num_heads,
                site.query_head_dim,
                site.left_context_len,
                site.valid_left_context,
                n,
            );
            host is Ok ==> task.host_layers(m, None, s, rows, n) == Some(host->Ok_0)
        }),
    decreases n,
{
    if n > 0 {
        lemma_layers_without_caches(task, m, s, rows, n - 1);
        let site = task.site(s);
        let before = layers_values(
            m,
            task.stack(s).layers@,
            rows,
            site.frames,
            task.stack(s).dim,
            site.num_heads,
            site.query_head_dim,
            site.left_context_len,
            site.valid_left_context,
            n - 1,
        );
        if before is Ok {
            reveal(PlanTask::host_layer);
            assert(cache_lengths_refusal(task.shape_of(s, n - 1)) is None);
            lemma_fresh_is_kept(task.shape_of(s, n - 1), task.layer_start(s) + n - 1);
            lemma_fresh(
                m,
                task.stack(s).layers@[n - 1],
                before->Ok_0,
                site.frames,
                task.stack(s).dim,
                site.num_heads,
                site.query_head_dim,
                site.left_context_len,
                site.valid_left_context,
            );
        }
    }
}

/// The first stack, without caches, gives what the layers of a host give that remembers
/// nothing.
pub proof fn law_first_layers_without_caches(
    task: PlanTask,
    m: FloatModel,
    rows: Seq<u32>,
    n: int,
)
    requires
        0 <= n <= task.stack(0).layers@.len(),
        forall|k: int|
            0 <= k < n ==> cache_lengths_refusal(#[trigger] task.shape_of(0, k)) is None,
    ensures
        ({
            let host = layers_values(
                m,
                task.stack(0).layers@,
                rows,
                task.frames,
                task.stack(0).dim,
                task.metadata.num_heads@[0],
                task.metadata.query_head_dims@[0],
                task.metadata.left_context_len@[0],
                task.valid_left_context,
                n,
            );
            host is Ok ==> task.host_layers(m, None, 0, rows, n) == Some(host->Ok_0)
        }),
{
    lemma_layers_without_caches(task, m, 0, rows, n);
}

proof fn lemma_trunk_without_caches(
    task: PlanTask,
    m: FloatModel,
    rows: Seq<u32>,
    start: TrunkValues,
    count: int,
)
    requires
        1 <= count <= task.weights.stacks@.len(),
        forall|s: int, k: int|
            0 <= s < count && 0 <= k < task.stack(s).layers@.len() ==> cache_lengths_refusal(
                #[trigger] task.shape_of(s, k),
            ) is None,
        forall|s: int|
            0 < s < count ==> {
                let stack = #[trigger] task.stack(s);
                &&& stack.downsample_bias is Some
                &&& (stack.downsample_bias->0)@.len() == stack.downsampling_factor
                &&& stack.out_combiner_bypass_scale is Some
            },
        forall|s: int| 0 <= s <= count ==> 0 <= #[trigger] task.trunk_frames(s) <= usize::MAX,
        task.host_trunk(m, None, rows, 1) == Some(start),
        start.frames == task.frames,
    ensures
        ({
            let host = trunk_values(
                m,
                task.metadata,
                task.weights,
                start,
                task.valid_left_context,
                count,
            );
            host is Ok ==> {
                &&& task.host_trunk(m, None, rows, count) == Some(host->Ok_0)
                &&& host->Ok_0.frames == task.trunk_frames(count)
            }
        }),
    decreases count,
{
    if count > 1 {
        lemma_trunk_without_caches(task, m, rows, start, count - 1);
        let s = count - 1;
        let before = trunk_values(
            m,
            task.metadata,
            task.weights,
            start,
            task.valid_left_context,
            s,
        );
        if before is Ok {
            let trunk = before->Ok_0;
            let stack = task.stack(s);
            reveal(step_values);
            reveal(PlanTask::host_stack);
            assert(task.trunk_frames(s) <= usize::MAX);
            assert(task.trunk_frames(s + 1) <= usize::MAX);
            assert(stack.downsample_bias is Some);
            assert forall|k: int| 0 <= k < stack.layers@.len() implies cache_lengths_refusal(
                #[trigger] task.shape_of(s, k),
            ) is None by {}
            let down = task.host_branch(m, s, trunk);
            if down is Some {
                lemma_layers_without_caches(task, m, s, down->0, stack.layers@.len() as int);
            }
        }
    }
}

/// A chunk that brings no caches is, to the host, the first: it makes of it what it makes
/// of rows before which there was nothing.
pub proof fn law_without_caches_a_chunk_is_the_first(task: PlanTask, m: FloatModel, rows: Seq<u32>)
    requires
        1 <= task.stack_count() <= task.weights.stacks@.len(),
        task.dim == task.stack(0).dim,
        forall|s: int, k: int|
            0 <= s < task.stack_count() && 0 <= k < task.stack(s).layers@.len()
                ==> cache_lengths_refusal(#[trigger] task.shape_of(s, k)) is None,
        forall|s: int|
            0 < s < task.stack_count() ==> {
                let stack = #[trigger] task.stack(s);
                &&& stack.downsample_bias is Some
                &&& (stack.downsample_bias->0)@.len() == stack.downsampling_factor
                &&& stack.out_combiner_bypass_scale is Some
            },
        forall|s: int|
            0 <= s <= task.stack_count() ==> 0 <= #[trigger] task.trunk_frames(s) <= usize::MAX,
    ensures
        ({
            let first = layers_values(
                m,
                task.stack(0).layers@,
                rows,
                task.frames,
                task.dim,
                task.metadata.num_heads@[0],
                task.metadata.query_head_dims@[0],
                task.metadata.left_context_len@[0],
                task.valid_left_context,
                task.stack(0).layers@.len() as int,
            );
            let host = tail_values(
                m,
                task.metadata,
                task.weights,
                first->Ok_0,
                task.frames,
                task.dim,
                task.valid_left_context,
            );
            first is Ok && host is Ok ==> task.host_output(m, None, rows) == Some(host->Ok_0)
        }),
{
    let n = task.stack(0).layers@.len() as int;
    let first = layers_values(
        m,
        task.stack(0).layers@,
        rows,
        task.frames,
        task.dim,
        task.metadata.num_heads@[0],
        task.metadata.query_head_dims@[0],
        task.metadata.left_context_len@[0],
        task.valid_left_context,
        n,
    );
    if first is Ok {
        assert forall|k: int| 0 <= k < n implies cache_lengths_refusal(
            #[trigger] task.shape_of(0, k),
        ) is None by {}
        law_first_layers_without_caches(task, m, rows, n);
        let start = TrunkValues {
            rows: first->Ok_0,
            frames: task.frames,
            dim: task.dim,
            tail3: None,
            tail4: None,
        };
        assert(task.host_trunk(m, None, rows, 1) == Some(start)) by {
            reveal(PlanTask::host_stack);
            assert(task.host_trunk(m, None, rows, 0) is Some);
        }
        lemma_trunk_without_caches(task, m, rows, start, task.stack_count());
    }
}

} // verus!
