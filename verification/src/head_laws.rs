//! What the planned predictor and joiner of a device compute.

use vstd::prelude::*;
use crate::decoder::XasrDecoder;
use crate::device_head_graph::{
    payloads_from, predicted, DeviceHeadPlan, HeadPayload, HeadPayloads, HeadShape, HeadSource,
};
use crate::graph::{EffectView, GgmlCpuTensor};
use crate::greedy::DEFAULT_MAX_SYMBOLS_PER_FRAME;
use crate::joiner::{joined_logits, projected, XasrJoinerWeights};
use crate::package_names::compacted;
use crate::parity::Device;
use crate::parity_head::{
    law_graph_joiner_is_the_host_joiner, law_graph_predictor_is_the_host_predictor,
    law_graph_projection_is_the_host_projection,
};
use crate::softmax::{degenerate, softmax_row};
use crate::tensor_value::{Shape4, TensorValue};

verus! {

/// The pack gives under each name what is stored under it.
pub open spec fn gives<S: HeadSource>(
    source: &S,
    stored: spec_fn(Seq<char>) -> HeadPayload,
) -> bool {
    forall|name: &String, payload: HeadPayload|
        #[trigger] call_ensures(S::payload, (source, name), Ok::<HeadPayload, String>(payload))
            ==> payload == stored(name@)
}

/// Every tensor of the predictor and of the joiner is the one that is stored under its own
/// name, as a pack writes it.
pub proof fn law_head_tensors_come_from_their_names<S: HeadSource>(
    source: &S,
    stored: spec_fn(Seq<char>) -> HeadPayload,
    payloads: HeadPayloads,
)
    requires
        gives(source, stored),
        payloads_from(source, payloads),
    ensures
        payloads.decoder_embedding == stored(compacted("decoder.embedding.weight"@)),
        payloads.decoder_conv == stored(compacted("decoder.conv.weight"@)),
        payloads.encoder_proj_weight == stored(compacted("joiner.encoder_proj.weight"@)),
        payloads.encoder_proj_bias == stored(compacted("joiner.encoder_proj.bias"@)),
        payloads.decoder_proj_weight == stored(compacted("joiner.decoder_proj.weight"@)),
        payloads.decoder_proj_bias == stored(compacted("joiner.decoder_proj.bias"@)),
        payloads.output_weight == stored(compacted("joiner.output_linear.weight"@)),
        payloads.output_bias == stored(compacted("joiner.output_linear.bias"@)),
{
}

/// Something that waits to be uploaded puts these bytes into the tensor.
pub open spec fn uploads(
    pending: Seq<EffectView>,
    tensor: GgmlCpuTensor,
    payload: HeadPayload,
    i: int,
) -> bool {
    &&& 0 <= i < pending.len()
    &&& pending[i] is UploadBytes
    &&& pending[i]->UploadBytes_tensor == tensor.id
    &&& pending[i]->bytes == payload.bytes@
    &&& pending[i]->ggml_type == payload.ggml_type
}

/// Every stored tensor is uploaded to the tensor that stands for it.
pub proof fn law_stored_tensors_are_uploaded_where_they_stand(
    plan: DeviceHeadPlan,
    payloads: HeadPayloads,
    shape: HeadShape,
)
    requires
        plan.stands(payloads, shape),
    ensures
        ({
            let pending = plan.graph.pending();
            let w = plan.weights;
            &&& exists|i: int|
                #[trigger] uploads(pending, w.decoder_embedding, payloads.decoder_embedding, i)
            &&& exists|i: int| #[trigger] uploads(pending, w.decoder_conv, payloads.decoder_conv, i)
            &&& exists|i: int|
                #[trigger] uploads(pending, w.encoder_proj_weight, payloads.encoder_proj_weight, i)
            &&& exists|i: int|
                #[trigger] uploads(pending, w.encoder_proj_bias, payloads.encoder_proj_bias, i)
            &&& exists|i: int|
                #[trigger] uploads(pending, w.decoder_proj_weight, payloads.decoder_proj_weight, i)
            &&& exists|i: int|
                #[trigger] uploads(pending, w.decoder_proj_bias, payloads.decoder_proj_bias, i)
            &&& exists|i: int|
                #[trigger] uploads(pending, w.output_weight, payloads.output_weight, i)
            &&& exists|i: int| #[trigger] uploads(pending, w.output_bias, payloads.output_bias, i)
        }),
{
    let pending = plan.graph.pending();
    let w = plan.weights;
    assert(uploads(pending, w.decoder_embedding, payloads.decoder_embedding, 0));
    assert(uploads(pending, w.decoder_conv, payloads.decoder_conv, 1));
    assert(uploads(pending, w.encoder_proj_weight, payloads.encoder_proj_weight, 2));
    assert(uploads(pending, w.encoder_proj_bias, payloads.encoder_proj_bias, 3));
    assert(uploads(pending, w.decoder_proj_weight, payloads.decoder_proj_weight, 4));
    assert(uploads(pending, w.decoder_proj_bias, payloads.decoder_proj_bias, 5));
    assert(uploads(pending, w.output_weight, payloads.output_weight, 6));
    assert(uploads(pending, w.output_bias, payloads.output_bias, 7));
}

/// A device whose tensors hold the weights projects a frame as the host does.
pub proof fn law_a_planned_head_projects_frames_as_the_host_does(
    plan: DeviceHeadPlan,
    payloads: HeadPayloads,
    shape: HeadShape,
    device: Device,
    weights: XasrJoinerWeights,
    frame: Seq<u32>,
)
    requires
        plan.stands(payloads, shape),
        device.multiplies_as_the_host(),
        device.holds_projection(
            plan.graph.value(plan.weights.encoder_proj_weight),
            plan.graph.value(plan.weights.encoder_proj_bias),
            weights.encoder_proj_weight,
            weights.encoder_proj_bias@,
        ),
        weights.encoder_proj_weight.output_dim == shape.joiner_dim,
        frame.len() == weights.encoder_proj_weight.input_dim,
        frame.len() == shape.encoder_dim,
        forall|c: int|
            0 <= c < frame.len() ==> #[trigger] (device.leaves)(
                plan.encoder.input.id as int,
                c,
                0,
                0,
                0,
            ) == frame[c],
    ensures
        ({
            let host = projected(
                device.host,
                weights.encoder_proj_weight,
                weights.encoder_proj_bias@,
                frame,
            );
            host is Ok && device.holds_list(plan.graph.value(plan.encoder.write), host->Ok_0)
        }),
{
    let graph = plan.graph;
    let x = TensorValue::leaf(
        10,
        (Shape4 { ne0: shape.encoder_dim, ne1: 1, ne2: 1, ne3: 1 }),
    );
    assert forall|c: int| 0 <= c < frame.len() implies device.value(#[trigger] (x.at)(c, 0, 0, 0))
        == frame[c] by {
        reveal_with_fuel(Device::value, 2);
        assert((device.leaves)(plan.encoder.input.id as int, c, 0, 0, 0) == frame[c]);
    }
    law_graph_projection_is_the_host_projection(
        device,
        graph.value(plan.weights.encoder_proj_weight),
        graph.value(plan.weights.encoder_proj_bias),
        weights.encoder_proj_weight,
        weights.encoder_proj_bias@,
        x,
        frame,
        graph.value(plan.weights.encoder_projection),
    );
}

/// A device whose tensors hold the weights takes a context through the predictor and projects
/// it as the host does.
pub proof fn law_a_planned_head_predicts_as_the_host_does(
    plan: DeviceHeadPlan,
    payloads: HeadPayloads,
    shape: HeadShape,
    device: Device,
    decoder: XasrDecoder,
    weights: XasrJoinerWeights,
    context: Seq<u32>,
)
    requires
        plan.stands(payloads, shape),
        device.multiplies_as_the_host(),
        device.attends_as_the_host(),
        decoder.decode_refusal(context) is None,
        decoder.spec_context_size() == shape.context_size,
        decoder.spec_weights().groups == shape.groups,
        decoder.spec_weights().embedding.input_dim == shape.decoder_dim,
        device.holds(
            plan.graph.value(plan.weights.decoder_embedding),
            decoder.spec_weights().embedding.values@,
            decoder.spec_weights().embedding.input_dim as int,
            decoder.spec_weights().embedding.output_dim as int,
        ),
        device.holds_flat(
            plan.graph.value(plan.weights.decoder_conv),
            decoder.spec_weights().conv_weight.values@,
        ),
        device.holds_projection(
            plan.graph.value(plan.weights.decoder_proj_weight),
            plan.graph.value(plan.weights.decoder_proj_bias),
            weights.decoder_proj_weight,
            weights.decoder_proj_bias@,
        ),
        weights.decoder_proj_weight.output_dim == shape.joiner_dim,
        weights.decoder_proj_weight.input_dim == shape.decoder_dim,
        forall|c: int|
            0 <= c < context.len() ==> #[trigger] (device.leaves)(
                plan.decoder.input.id as int,
                c,
                0,
                0,
                0,
            ) == context[c],
    ensures
        ({
            let host = projected(
                device.host,
                weights.decoder_proj_weight,
                weights.decoder_proj_bias@,
                decoder.decoded(device.host, context),
            );
            host is Ok && device.holds_list(plan.graph.value(plan.decoder.write), host->Ok_0)
        }),
{
    let graph = plan.graph;
    let tokens = TensorValue::leaf(
        14,
        (Shape4 { ne0: shape.context_size, ne1: 1, ne2: 1, ne3: 1 }),
    );
    assert forall|c: int| 0 <= c < context.len() implies device.value(
        #[trigger] (tokens.at)(c, 0, 0, 0),
    ) == context[c] by {
        reveal_with_fuel(Device::value, 2);
        assert((device.leaves)(plan.decoder.input.id as int, c, 0, 0, 0) == context[c]);
    }
    law_graph_predictor_is_the_host_predictor(
        device,
        decoder,
        graph.value(plan.weights.decoder_embedding),
        graph.value(plan.weights.decoder_conv),
        tokens,
        context,
    );
    law_graph_projection_is_the_host_projection(
        device,
        graph.value(plan.weights.decoder_proj_weight),
        graph.value(plan.weights.decoder_proj_bias),
        weights.decoder_proj_weight,
        weights.decoder_proj_bias@,
        predicted(
            graph.value(plan.weights.decoder_embedding),
            graph.value(plan.weights.decoder_conv),
            tokens,
            shape.context_size * (shape.decoder_dim / shape.groups),
            (shape.decoder_dim / shape.groups) as int,
            shape.groups as int,
            shape.decoder_dim as int,
        ),
        decoder.decoded(device.host, context),
        graph.value(plan.weights.decoder_projection),
    );
}

/// A device whose tensors hold the weights and both projections chooses among the logits of
/// the host, and hands out the share of the token that it chose.
pub proof fn law_a_planned_head_joins_as_the_host_does(
    plan: DeviceHeadPlan,
    payloads: HeadPayloads,
    shape: HeadShape,
    device: Device,
    weights: XasrJoinerWeights,
    joined: Seq<u32>,
    enc: Seq<u32>,
    dec: Seq<u32>,
)
    requires
        plan.stands(payloads, shape),
        device.multiplies_as_the_host(),
        device.normalizes_as_the_host(),
        device.holds_projection(
            plan.graph.value(plan.weights.output_weight),
            plan.graph.value(plan.weights.output_bias),
            weights.output_linear_weight,
            weights.output_linear_bias@,
        ),
        device.holds_list(plan.graph.value(plan.weights.encoder_projection), enc),
        device.holds_list(plan.graph.value(plan.weights.decoder_projection), dec),
        enc.len() == dec.len(),
        joined.len() == enc.len(),
        enc.len() == weights.output_linear_weight.input_dim,
    ensures
        ({
            let host = joined_logits(device.host, weights, joined, enc, dec);
            let token = device.value((plan.graph.value(plan.joint.top1).at)(0, 0, 0, 0));
            let share = plan.graph.value(plan.joint.selected_probability);
            &&& host is Ok
            &&& token == (device.arg_max)(host->Ok_0)
            &&& host->Ok_0.len() > 0 && !degenerate(device.host, host->Ok_0) && token
                < host->Ok_0.len() ==> device.value((share.at)(0, 0, 0, 0)) == softmax_row(
                device.host,
                host->Ok_0,
            )[token as int]
        }),
{
    law_graph_joiner_is_the_host_joiner(
        device,
        weights,
        plan.graph.value(plan.weights.output_weight),
        plan.graph.value(plan.weights.output_bias),
        plan.graph.value(plan.weights.encoder_projection),
        plan.graph.value(plan.weights.decoder_projection),
        joined,
        enc,
        dec,
    );
}

/// A search begins with blanks, as many as the predictor looks back at, and takes no more than
/// eight tokens of a frame unless another limit is set.
pub proof fn law_a_search_begins_with_blanks(decoder: XasrDecoder)
    ensures
        decoder.spec_initial_context().len() == decoder.spec_context_size(),
        forall|i: int|
            0 <= i < decoder.spec_context_size() ==> #[trigger] decoder.spec_initial_context()[i]
                == decoder.spec_blank_id(),
        DEFAULT_MAX_SYMBOLS_PER_FRAME == 8,
{
}

} // verus!
