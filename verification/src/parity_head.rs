//! The predictor and joiner of a graph and those of the host.

use vstd::prelude::*;
use crate::bits::{ONE_BITS, ZERO_BITS};
use crate::decoder::{conv_channel, embedded, lemma_context_accepted, XasrDecoder};
use crate::device_head_graph::predicted;
use crate::encoder_weights::StoredLinear;
use crate::joiner::{joined_logits, joined_state, projected, XasrJoinerWeights};
use crate::layer_values;
use crate::parity::{lemma_flat, lemma_held_row, lemma_place, lemma_repeats, Device};
use crate::parity_conv::lemma_same_dot;
use crate::parity_values::lemma_flat_planes;
use crate::softmax::{degenerate, softmax_row};
use crate::sums::dot;
use crate::tensor_value::{Scalar, TensorValue};

verus! {

impl Device {
    /// The tensors hold a matrix and a bias.
    pub open spec fn holds_projection(
        self,
        weight: TensorValue,
        bias: TensorValue,
        matrix: StoredLinear,
        biases: Seq<u32>,
    ) -> bool {
        &&& self.holds(
            weight,
            matrix.values@,
            matrix.input_dim as int,
            matrix.output_dim as int,
        )
        &&& self.holds_list(bias, biases)
        &&& biases.len() == matrix.output_dim
    }

    /// The tensor holds a list, whatever its dimensions.
    pub open spec fn holds_flat(self, x: TensorValue, entries: Seq<u32>) -> bool {
        forall|i: int| 0 <= i < entries.len() ==> self.value(#[trigger] x.flat(i)) == entries[i]
    }

    /// The softmax of logits is that of the host.
    pub open spec fn normalizes_as_the_host(self) -> bool {
        forall|logits: Seq<u32>|
            logits.len() > 0 && !degenerate(self.host, logits)
                ==> #[trigger] (self.masked_softmax)(logits, None, ONE_BITS, ZERO_BITS)
                == softmax_row(self.host, logits)
    }
}

/// A matrix times a list, plus a bias.
proof fn lemma_projection(
    device: Device,
    weight: TensorValue,
    bias: TensorValue,
    matrix: StoredLinear,
    biases: Seq<u32>,
    x: TensorValue,
    entries: Seq<u32>,
)
    requires
        device.multiplies_as_the_host(),
        device.holds_projection(weight, bias, matrix, biases),
        device.holds_list(x, entries),
        entries.len() == matrix.input_dim,
    ensures
        projected(device.host, matrix, biases, entries) is Ok,
        projected(device.host, matrix, biases, entries)->Ok_0.len() == matrix.output_dim,
        device.holds_list(
            layer_values::linear(weight, x, bias),
            projected(device.host, matrix, biases, entries)->Ok_0,
        ),
{
    let y = layer_values::linear(weight, x, bias);
    let row = device.product(matrix, entries, biases);
    assert((device.host.apply_linear)(matrix, entries, Some(biases)) == Ok::<
        Seq<u32>,
        Seq<char>,
    >(row));
    assert(device.values(x.row(0, 0, 0)) =~= entries) by {
        assert forall|c: int| 0 <= c < entries.len() implies #[trigger] device.values(
            x.row(0, 0, 0),
        )[c] == entries[c] by {
            assert(x.row(0, 0, 0)[c] == (x.at)(c, 0, 0, 0));
        }
    }
    assert forall|r: int| 0 <= r < matrix.output_dim implies device.value(
        #[trigger] (y.at)(r, 0, 0, 0),
    ) == row[r] by {
        lemma_held_row(
            device,
            weight,
            matrix.values@,
            matrix.input_dim as int,
            matrix.output_dim as int,
            r,
        );
        assert(device.value((bias.at)(r, 0, 0, 0)) == biases[r]);
        lemma_repeats(r, matrix.output_dim as int);
        lemma_repeats(0, 1);
        reveal_with_fuel(Device::value, 2);
    }
}

/// A projection of a graph, written to where it stays, is that of the host.
pub proof fn law_graph_projection_is_the_host_projection(
    device: Device,
    weight: TensorValue,
    bias: TensorValue,
    matrix: StoredLinear,
    biases: Seq<u32>,
    x: TensorValue,
    entries: Seq<u32>,
    target: TensorValue,
)
    requires
        device.multiplies_as_the_host(),
        device.holds_projection(weight, bias, matrix, biases),
        device.holds_list(x, entries),
        entries.len() == matrix.input_dim,
        target.has_shape(matrix.output_dim as int, 1, 1, 1),
    ensures
        projected(device.host, matrix, biases, entries) is Ok,
        device.holds_list(
            layer_values::linear(weight, x, bias).copied_into(target),
            projected(device.host, matrix, biases, entries)->Ok_0,
        ),
{
    lemma_projection(device, weight, bias, matrix, biases, x, entries);
    let y = layer_values::linear(weight, x, bias);
    let n = matrix.output_dim as int;
    let z = y.copied_into(target);
    let out = projected(device.host, matrix, biases, entries)->Ok_0;
    assert forall|c: int| 0 <= c < n implies device.value(#[trigger] (z.at)(c, 0, 0, 0))
        == out[c] by {
        assert(((0 * 1 + 0) * 1 + 0) * n + c == 0 * n + c) by (nonlinear_arith);
        lemma_flat(y, n, 1, 0, c);
        assert(device.value((y.at)(c, 0, 0, 0)) == out[c]);
    }
}

/// The logits that a graph joins are those of the host; the token that it chooses
/// comes with its probability.
pub proof fn law_graph_joiner_is_the_host_joiner(
    device: Device,
    weights: XasrJoinerWeights,
    weight: TensorValue,
    bias: TensorValue,
    encoder: TensorValue,
    decoder: TensorValue,
    joined: Seq<u32>,
    enc: Seq<u32>,
    dec: Seq<u32>,
)
    requires
        device.multiplies_as_the_host(),
        device.normalizes_as_the_host(),
        device.holds_projection(
            weight,
            bias,
            weights.output_linear_weight,
            weights.output_linear_bias@,
        ),
        device.holds_list(encoder, enc),
        device.holds_list(decoder, dec),
        enc.len() == dec.len(),
        joined.len() == enc.len(),
        enc.len() == weights.output_linear_weight.input_dim,
    ensures
        ({
            let logits = layer_values::linear(weight, encoder.plus(decoder).tanh(), bias);
            let host = joined_logits(device.host, weights, joined, enc, dec);
            let token = device.value((logits.arg_max_rows().at)(0, 0, 0, 0));
            let probability = logits.soft_max(
                None,
                ONE_BITS,
                ZERO_BITS,
            ).transposed().cont().gathered(logits.arg_max_rows());
            &&& host is Ok
            &&& device.holds_list(logits, host->Ok_0)
            &&& token == (device.arg_max)(host->Ok_0)
            &&& host->Ok_0.len() > 0 && !degenerate(device.host, host->Ok_0) && token
                < host->Ok_0.len() ==> device.value((probability.at)(0, 0, 0, 0)) == softmax_row(
                device.host,
                host->Ok_0,
            )[token as int]
        }),
{
    let m = device.host;
    let state = joined_state(m, joined, enc, dec);
    let x = encoder.plus(decoder).tanh();
    let n = enc.len() as int;
    assert(device.holds_list(x, state)) by {
        assert forall|c: int| 0 <= c < n implies device.value(#[trigger] (x.at)(c, 0, 0, 0))
            == state[c] by {
            lemma_repeats(c, n);
            lemma_repeats(0, 1);
            assert(device.value((encoder.at)(c, 0, 0, 0)) == enc[c]);
            assert(device.value((decoder.at)(c, 0, 0, 0)) == dec[c]);
            reveal_with_fuel(Device::value, 3);
        }
    }
    lemma_projection(
        device,
        weight,
        bias,
        weights.output_linear_weight,
        weights.output_linear_bias@,
        x,
        state,
    );
    let logits = layer_values::linear(weight, x, bias);
    let out = joined_logits(m, weights, joined, enc, dec)->Ok_0;
    assert(device.values(logits.row(0, 0, 0)) =~= out) by {
        assert forall|c: int| 0 <= c < out.len() implies #[trigger] device.values(
            logits.row(0, 0, 0),
        )[c] == out[c] by {
            assert(logits.row(0, 0, 0)[c] == (logits.at)(c, 0, 0, 0));
        }
    }
    let best = logits.arg_max_rows();
    assert((best.at)(0, 0, 0, 0) == Scalar::ArgMax(logits.row(0, 0, 0)));
    let token = device.value((best.at)(0, 0, 0, 0));
    assert(token == (device.arg_max)(out));
    let column = logits.soft_max(None, ONE_BITS, ZERO_BITS).transposed().cont();
    let probability = column.gathered(best);
    if out.len() > 0 && !degenerate(m, out) && token < out.len() {
        let table = Seq::new(column.ne1 as nat, |j: int| (column.at)(0, j, 0, 0));
        assert((probability.at)(0, 0, 0, 0) == Scalar::Gathered {
            table,
            selector: Box::new((best.at)(0, 0, 0, 0)),
        });
        assert(device.value((probability.at)(0, 0, 0, 0)) == device.values(table)[token as int]);
        let entry = Scalar::Softmax {
            row: logits.row(0, 0, 0),
            mask: None,
            scale: ONE_BITS,
            max_bias: ZERO_BITS,
            index: token as int,
        };
        assert(table[token as int] == entry);
        assert(device.value(entry) == (device.masked_softmax)(
            device.values(logits.row(0, 0, 0)),
            None,
            ONE_BITS,
            ZERO_BITS,
        )[token as int]);
    }
}

/// The embeddings of a context, channel by channel.
proof fn lemma_embedded_at(
    device: Device,
    table: TensorValue,
    tokens: TensorValue,
    values: Seq<u32>,
    context: Seq<u32>,
    dim: int,
    vocab: int,
    i: int,
)
    requires
        device.holds(table, values, dim, vocab),
        device.holds_list(tokens, context),
        forall|t: int| 0 <= t < context.len() ==> 0 <= #[trigger] context[t] < vocab,
        0 <= i < dim * context.len(),
        0 < dim,
    ensures
        device.value(table.gathered(tokens).transposed().cont().flat(i)) == embedded(
            values,
            dim,
            context,
        )[i],
{
    let size = context.len() as int;
    assert(0 < size) by (nonlinear_arith)
        requires
            0 <= i < dim * size,
            0 < dim,
            0 <= size,
    ;
    let t = i % size;
    let d = i / size;
    vstd::arithmetic::div_mod::lemma_fundamental_div_mod(i, size);
    assert(0 <= d < dim) by (nonlinear_arith)
        requires
            i == size * d + t,
            0 <= t < size,
            0 <= i < dim * size,
    ;
    assert(d * size + t == i) by (nonlinear_arith)
        requires
            i == size * d + t,
    ;
    let gathered = table.gathered(tokens);
    let turned = gathered.transposed().cont();
    lemma_flat(turned, size, dim, d, t);
    let column = Seq::new(table.ne1 as nat, |j: int| (table.at)(d, j, 0, 0));
    assert((turned.at)(t, d, 0, 0) == Scalar::Gathered {
        table: column,
        selector: Box::new((tokens.at)(t, 0, 0, 0)),
    });
    assert(device.value((tokens.at)(t, 0, 0, 0)) == context[t]);
    let token = context[t] as int;
    assert(column[token] == (table.at)(d, token, 0, 0));
    assert(device.value((turned.at)(t, d, 0, 0)) == device.values(column)[token]);
    assert(device.values(column)[token] == device.value(column[token]));
}

/// The predictor of a graph is that of the host.
#[verifier::spinoff_prover]
#[verifier::rlimit(40)]
pub proof fn law_graph_predictor_is_the_host_predictor(
    device: Device,
    decoder: XasrDecoder,
    table: TensorValue,
    kernel: TensorValue,
    tokens: TensorValue,
    context: Seq<u32>,
)
    requires
        device.attends_as_the_host(),
        decoder.decode_refusal(context) is None,
        device.holds(
            table,
            decoder.spec_weights().embedding.values@,
            decoder.spec_weights().embedding.input_dim as int,
            decoder.spec_weights().embedding.output_dim as int,
        ),
        device.holds_flat(kernel, decoder.spec_weights().conv_weight.values@),
        device.holds_list(tokens, context),
    ensures
        ({
            let weights = decoder.spec_weights();
            let dim = weights.embedding.input_dim;
            let in_per_group = (dim / weights.groups) as int;
            device.holds_list(
                predicted(
                    table,
                    kernel,
                    tokens,
                    decoder.spec_context_size() * in_per_group,
                    in_per_group,
                    weights.groups as int,
                    dim as int,
                ),
                decoder.decoded(device.host, context),
            )
        }),
{
    let m = device.host;
    let weights = decoder.spec_weights();
    let dim = weights.embedding.input_dim as int;
    let vocab = weights.embedding.output_dim as int;
    let groups = weights.groups as int;
    let per_group = (weights.embedding.input_dim / weights.groups) as int;
    let size = decoder.spec_context_size() as int;
    let width = size * per_group;
    let values = weights.embedding.values@;
    let kernels = weights.conv_weight.values@;
    let input = embedded(values, dim, context);
    vstd::arithmetic::div_mod::lemma_fundamental_div_mod(dim, groups);
    assert(groups * per_group == dim);
    assert forall|t: int| 0 <= t < context.len() implies 0 <= #[trigger] context[t] < vocab by {
        lemma_context_accepted(
            context,
            weights.embedding.output_dim,
            context.len() as int,
            t,
        );
    }
    let turned = table.gathered(tokens).transposed().cont();
    let first = kernel.reshaped(width, per_group, groups, 1);
    let second = turned.reshaped(width, 1, groups, 1);
    let product = first.mul_mat(second);
    let y = predicted(table, kernel, tokens, width, per_group, groups, dim);
    let state = decoder.decoded(m, context);
    vstd::arithmetic::div_mod::lemma_fundamental_div_mod_converse(groups, groups, 1, 0);
    lemma_repeats(0, 1);
    assert forall|out: int| 0 <= out < dim implies device.value(#[trigger] (y.at)(out, 0, 0, 0))
        == state[out] by {
        assert(0 < per_group) by (nonlinear_arith)
            requires
                groups * per_group == dim,
                0 < dim,
                0 < groups,
        ;
        let g = out / per_group;
        let r = out % per_group;
        vstd::arithmetic::div_mod::lemma_fundamental_div_mod(out, per_group);
        assert(0 <= g < groups) by (nonlinear_arith)
            requires
                out == per_group * g + r,
                0 <= r < per_group,
                0 <= out < groups * per_group,
        ;
        assert(g * per_group + r == out) by (nonlinear_arith)
            requires
                out == per_group * g + r,
        ;
        lemma_repeats(g, groups);
        vstd::arithmetic::div_mod::lemma_fundamental_div_mod_converse(g, 1, g, 0);
        lemma_flat_planes(product, per_group, 1, groups, g, 0, r);
        assert(((0 * 1 + 0) * 1 + 0) * dim + out == (g * 1 + 0) * per_group + r)
            by (nonlinear_arith)
            requires
                g * per_group + r == out,
        ;
        let kernel_row = device.values(first.row(r, g, 0));
        let input_row = device.values(second.row(0, g, 0));
        assert(out * per_group * size == out * width && (out / per_group) * per_group * size == g
            * width && per_group * size == width && dim * per_group * size == dim * width && groups
            * width == dim * size && 0 <= width) by (nonlinear_arith)
            requires
                width == size * per_group,
                g == out / per_group,
                groups * per_group == dim,
                0 <= size,
                0 < per_group,
        ;
        assert forall|k: int| 0 <= k < width implies #[trigger] kernel_row[k] == kernels[out * width
            + k] by {
            assert(((0 * groups + g) * per_group + r) * width + k == out * width + k)
                by (nonlinear_arith)
                requires
                    g * per_group + r == out,
            ;
            lemma_place(out, dim, k, width);
            assert(first.row(r, g, 0)[k] == kernel.flat(out * width + k));
        }
        assert forall|k: int| 0 <= k < width implies #[trigger] input_row[k] == input[g * width
            + k] by {
            assert(((0 * groups + g) * 1 + 0) * width + k == g * width + k) by (nonlinear_arith);
            lemma_place(g, groups, k, width);
            assert(second.row(0, g, 0)[k] == turned.flat(g * width + k));
            lemma_embedded_at(device, table, tokens, values, context, dim, vocab, g * width + k);
        }
        assert((product.at)(r, 0, g, 0) == Scalar::Dot(first.row(r, g, 0), second.row(0, g, 0)));
        let sum = Scalar::Dot(first.row(r, g, 0), second.row(0, g, 0));
        assert(device.value(sum) == (device.dot)(kernel_row, input_row));
        assert((device.dot)(kernel_row, input_row) == dot(
            m,
            ZERO_BITS,
            input_row,
            0,
            kernel_row,
            0,
            width,
        ));
        lemma_same_dot(
            m,
            ZERO_BITS,
            input,
            g * width,
            kernels,
            out * width,
            input_row,
            kernel_row,
            width,
        );
        assert(device.value(sum) == conv_channel(m, input, dim, size, kernels, groups, out));
        assert((y.at)(out, 0, 0, 0) == Scalar::Relu(Box::new(sum)));
        reveal_with_fuel(Device::value, 2);
    }
}

} // verus!
