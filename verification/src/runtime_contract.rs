//! What a pack says of the model it holds.

use vstd::prelude::*;

verus! {

/// Dimensions of a model.  Each list has one entry for each stack.
#[derive(Debug)]
pub struct XasrZipformerExecutionMetadata {
    pub num_stacks: usize,
    pub num_encoder_layers: Vec<usize>,
    pub encoder_dims: Vec<usize>,
    pub query_head_dims: Vec<usize>,
    pub value_head_dims: Vec<usize>,
    pub num_heads: Vec<usize>,
    pub cnn_module_kernels: Vec<usize>,
    pub left_context_len: Vec<usize>,
    pub downsampling_factors: Vec<usize>,
    pub feature_dim: usize,
    pub decode_chunk_len: usize,
    pub joiner_dim: usize,
    pub decoder_context_size: usize,
    pub vocab_size: usize,
    pub blank_id: u32,
}

/// The sum of a list of counts.
pub open spec fn total(counts: Seq<usize>) -> nat
    decreases counts.len(),
{
    if counts.len() == 0 {
        0
    } else {
        total(counts.drop_last()) + counts.last() as nat
    }
}

/// The largest of a list of dimensions, or zero.
pub open spec fn largest(dims: Seq<usize>) -> usize
    decreases dims.len(),
{
    if dims.len() == 0 {
        0
    } else if largest(dims.drop_last()) > dims.last() {
        largest(dims.drop_last())
    } else {
        dims.last()
    }
}

/// A part of a list sums to no more than the list.
pub proof fn lemma_total_prefix(counts: Seq<usize>, n: int)
    requires
        0 <= n <= counts.len(),
    ensures
        total(counts.take(n)) <= total(counts),
    decreases counts.len() - n,
{
    if n < counts.len() {
        lemma_total_prefix(counts, n + 1);
        assert(counts.take(n + 1).drop_last() =~= counts.take(n));
    } else {
        assert(counts.take(n) =~= counts);
    }
}

impl XasrZipformerExecutionMetadata {
    /// Number of layers of all stacks.
    pub fn total_encoder_layers(&self) -> (count: usize)
        requires
            total(self.num_encoder_layers@) <= usize::MAX,
        ensures
            count == total(self.num_encoder_layers@),
    {
        let mut count: usize = 0;
        let mut i: usize = 0;
        while i < self.num_encoder_layers.len()
            invariant
                i <= self.num_encoder_layers@.len(),
                total(self.num_encoder_layers@) <= usize::MAX,
                count == total(self.num_encoder_layers@.take(i as int)),
            decreases self.num_encoder_layers.len() - i,
        {
            proof {
                lemma_total_prefix(self.num_encoder_layers@, i + 1);
                assert(self.num_encoder_layers@.take(i + 1).drop_last()
                    =~= self.num_encoder_layers@.take(i as int));
            }
            count = count + self.num_encoder_layers[i];
            i = i + 1;
        }
        assert(self.num_encoder_layers@.take(i as int) =~= self.num_encoder_layers@);
        count
    }

    /// Width of the encoder output: the widest stack.
    pub fn encoder_output_dim(&self) -> (dim: usize)
        ensures
            dim == largest(self.encoder_dims@),
    {
        let mut dim: usize = 0;
        let mut i: usize = 0;
        while i < self.encoder_dims.len()
            invariant
                i <= self.encoder_dims@.len(),
                dim == largest(self.encoder_dims@.take(i as int)),
            decreases self.encoder_dims.len() - i,
        {
            proof {
                assert(self.encoder_dims@.take(i + 1).drop_last() =~= self.encoder_dims@.take(
                    i as int,
                ));
            }
            if !(dim > self.encoder_dims[i]) {
                dim = self.encoder_dims[i];
            }
            i = i + 1;
        }
        assert(self.encoder_dims@.take(i as int) =~= self.encoder_dims@);
        dim
    }
}

/// The encoder output is as wide as some stack and no narrower than any.
pub proof fn law_output_dim_is_the_widest_stack(dims: Seq<usize>, i: int)
    requires
        0 <= i < dims.len(),
    ensures
        largest(dims) >= dims[i],
        dims.contains(largest(dims)),
    decreases dims.len(),
{
    if dims.len() > 1 {
        let shorter = dims.drop_last();
        law_output_dim_is_the_widest_stack(shorter, if i < shorter.len() {
            i
        } else {
            0
        });
        if largest(shorter) > dims.last() {
            let j = choose|j: int| 0 <= j < shorter.len() && shorter[j] == largest(shorter);
            assert(dims[j] == largest(dims));
        } else {
            assert(dims[dims.len() - 1] == largest(dims));
        }
    } else {
        assert(largest(dims.drop_last()) == 0);
        assert(dims[0] == largest(dims));
    }
}

} // verus!
