//! The frame rates and widths of a graph and those of the host.

use vstd::prelude::*;
use crate::bits::ZERO_BITS;
use crate::encoder_rows::sliced_rows;
use crate::graph::GgmlCpuGraphBuilder;
use crate::layer_graph::{XasrDownsampleGraphShape, XasrDownsampleGraphTensors};
use crate::layer_values;
use crate::parity::{lemma_place, lemma_repeats, lemma_window, Device};
use crate::parity_attention::{lemma_columns, lemma_stacked};
use crate::reference_encoder::side_by_side;
use crate::reference_scale::{
    downsampled, group_row, group_sum, law_groups_hold_all_rows, padded_rows, resized_row,
    resized_rows, upsampled_row, upsampled_rows,
};
use crate::rows::{self, joined, part_of, zero_seq};
use crate::softmax::{degenerate, softmax_row, softmax_rows};
use crate::tensor_value::{Scalar, TensorValue};

verus! {

impl Device {
    /// Nothing is lost to a zero.
    pub open spec fn averages_as_the_host(self) -> bool {
        let m = self.host;
        forall|v: u32| #[trigger] (m.add)(ZERO_BITS, v) == v
    }

    /// The padding is zero.
    pub open spec fn holds_padding(
        self,
        graph: GgmlCpuGraphBuilder,
        tensors: XasrDownsampleGraphTensors,
        shape: XasrDownsampleGraphShape,
    ) -> bool {
        let wider = shape.target_dim - shape.input_dim;
        let longer = shape.padded_frames() - shape.frames;
        &&& wider > 0 ==> self.holds(
            graph.value(tensors.channel_pad->0),
            zero_seq((shape.frames * wider) as nat),
            wider,
            shape.frames as int,
        )
        &&& longer > 0 ==> self.holds(
            graph.value(tensors.frame_pad->0),
            zero_seq((longer * shape.target_dim) as nat),
            shape.target_dim as int,
            longer,
        )
    }
}

/// Rows cut or filled up.
proof fn lemma_resized(
    device: Device,
    x: TensorValue,
    pad: TensorValue,
    held: Seq<u32>,
    frames: int,
    input_dim: int,
    target_dim: int,
)
    requires
        device.holds(x, held, input_dim, frames),
        target_dim > input_dim ==> device.holds(
            pad,
            zero_seq((frames * (target_dim - input_dim)) as nat),
            target_dim - input_dim,
            frames,
        ),
        0 <= frames,
        0 <= input_dim,
        0 <= target_dim,
    ensures
        device.holds(
            layer_values::resized(x, pad, frames, input_dim, target_dim),
            resized_rows(held, frames, input_dim, target_dim),
            target_dim,
            frames,
        ),
{
    let y = layer_values::resized(x, pad, frames, input_dim, target_dim);
    let part = |t: int| resized_row(held, input_dim, target_dim, t);
    assert forall|t: int| 0 <= t < frames implies (#[trigger] part(t)).len() == target_dim by {}
    rows::lemma_joined_len(frames, part, target_dim);
    assert forall|c: int, t: int| 0 <= c < target_dim && 0 <= t < frames implies device.value(
        #[trigger] (y.at)(c, t, 0, 0),
    ) == joined(frames, part)[t * target_dim + c] by {
        rows::lemma_joined_at(frames, part, target_dim, t, c);
        if c < input_dim {
            assert(device.value((x.at)(c, t, 0, 0)) == held[t * input_dim + c]);
            if target_dim < input_dim {
                assert(0 * input_dim == 0);
                lemma_window(
                    x,
                    input_dim,
                    frames,
                    target_dim,
                    frames,
                    0,
                    0,
                    1,
                    input_dim * 4,
                    0,
                    c,
                    t,
                );
            }
        } else {
            let wider = target_dim - input_dim;
            lemma_place(t, frames, c - input_dim, wider);
            assert(device.value((pad.at)(c - input_dim, t, 0, 0)) == zero_seq(
                (frames * wider) as nat,
            )[t * wider + (c - input_dim)]);
        }
    }
}

/// Rows filled up to whole groups.
proof fn lemma_filled(
    device: Device,
    x: TensorValue,
    pad: TensorValue,
    held: Seq<u32>,
    dim: int,
    frames: int,
    padded_frames: int,
)
    requires
        device.holds(x, held, dim, frames),
        padded_frames > frames ==> device.holds(
            pad,
            zero_seq(((padded_frames - frames) * dim) as nat),
            dim,
            padded_frames - frames,
        ),
        0 <= frames <= padded_frames,
        0 <= dim,
    ensures
        device.holds(
            layer_values::frame_padded(x, pad, frames, padded_frames),
            held + zero_seq(((padded_frames - frames) * dim) as nat),
            dim,
            padded_frames,
        ),
{
    let zeros = zero_seq(((padded_frames - frames) * dim) as nat);
    if padded_frames > frames {
        lemma_stacked(device, x, pad, held, zeros, dim, frames, padded_frames - frames);
    } else {
        assert((padded_frames - frames) * dim == 0) by (nonlinear_arith)
            requires
                padded_frames == frames,
        ;
        assert(held + zeros =~= held);
        assert forall|c: int, t: int| 0 <= c < dim && 0 <= t < frames implies device.value(
            #[trigger] (x.cont().at)(c, t, 0, 0),
        ) == held[t * dim + c] by {
            assert(device.value((x.at)(c, t, 0, 0)) == held[t * dim + c]);
        }
    }
}

/// The weighted sum of a group.
proof fn lemma_phase_sum(
    device: Device,
    x: TensorValue,
    held: Seq<u32>,
    weights: Seq<u32>,
    dim: int,
    factor: int,
    groups: int,
    count: int,
    c: int,
    g: int,
)
    requires
        device.averages_as_the_host(),
        device.holds(x, held, dim, groups * factor),
        1 <= count <= factor,
        0 <= c < dim,
        0 <= g < groups,
    ensures
        layer_values::phase_sum(x, weights, dim, factor, groups, count).has_shape(
            dim,
            groups,
            1,
            1,
        ),
        device.value(
            (layer_values::phase_sum(x, weights, dim, factor, groups, count).at)(c, g, 0, 0),
        ) == group_sum(device.host, held, weights, dim, g * factor, c, count),
    decreases count,
{
    let m = device.host;
    let i = count - 1;
    let row = g * factor + i;
    let window = x.window(dim, groups, (dim * 4) * factor, i * (dim * 4));
    let last = layer_values::weighted_phase(x, weights, dim, factor, groups, i);
    lemma_place(g, groups, i, factor);
    assert(i * (dim * 4) == (i * dim + 0) * 4) by (nonlinear_arith);
    assert(i + g * factor == row);
    lemma_window(
        x,
        dim,
        groups * factor,
        dim,
        groups,
        0,
        i,
        factor,
        (dim * 4) * factor,
        i * (dim * 4),
        c,
        g,
    );
    assert(device.value((x.at)(c, row, 0, 0)) == held[row * dim + c]);
    let weighted = Scalar::Scaled(Box::new((window.at)(c, g, 0, 0)), weights[i]);
    assert((last.at)(c, g, 0, 0) == weighted);
    assert(device.value(weighted) == (m.mul)(held[row * dim + c], weights[i])) by {
        reveal_with_fuel(Device::value, 2);
    }
    reveal_with_fuel(group_sum, 2);
    if count > 1 {
        lemma_phase_sum(device, x, held, weights, dim, factor, groups, count - 1, c, g);
        lemma_repeats(c, dim);
        lemma_repeats(g, groups);
        let before = layer_values::phase_sum(x, weights, dim, factor, groups, count - 1);
        assert(last.repeated(c, g, 0, 0) == weighted);
        assert((before.plus(last).at)(c, g, 0, 0) == Scalar::Sum(
            Box::new((before.at)(c, g, 0, 0)),
            Box::new(weighted),
        ));
        assert(device.value((before.plus(last).at)(c, g, 0, 0)) == (m.add)(
            device.value((before.at)(c, g, 0, 0)),
            device.value(weighted),
        ));
    } else {
        assert((m.add)(ZERO_BITS, (m.mul)(held[row * dim + c], weights[i])) == (m.mul)(
            held[row * dim + c],
            weights[i],
        ));
    }
}

/// The softmax of a single row.
proof fn lemma_one_row(device: Device, logits: Seq<u32>, width: usize)
    requires
        logits.len() == width,
        width > 0,
        softmax_rows(device.host, logits, width) is Ok,
    ensures
        !degenerate(device.host, logits),
        softmax_rows(device.host, logits, width)->Ok_0 == softmax_row(device.host, logits),
{
    let m = device.host;
    let w = width as int;
    vstd::arithmetic::div_mod::lemma_fundamental_div_mod_converse(w, w, 1, 0);
    assert(0 * w == 0 && (0 + 1) * w == w) by (nonlinear_arith);
    assert(part_of(logits, w, 0) =~= logits);
    let part = |t: int| softmax_row(m, part_of(logits, w, t));
    reveal_with_fuel(joined, 2);
    assert(joined(1, part) =~= part(0));
}

/// A downsampling of a graph is that of the host: the rows filled up to whole
/// groups, and the weighted sum of each group.
pub proof fn law_graph_downsampling_is_the_host_one(
    device: Device,
    graph: GgmlCpuGraphBuilder,
    tensors: XasrDownsampleGraphTensors,
    shape: XasrDownsampleGraphShape,
    logits: Seq<u32>,
    weights: Seq<u32>,
    x: TensorValue,
    held: Seq<u32>,
)
    requires
        device.averages_as_the_host(),
        weights == softmax_row(device.host, logits),
        device.holds_padding(graph, tensors, shape),
        shape.positive(),
        logits.len() == shape.factor,
        device.holds(x, held, shape.input_dim as int, shape.frames as int),
    ensures
        ({
            let host = downsampled(
                device.host,
                held,
                shape.frames,
                shape.input_dim,
                shape.target_dim,
                logits,
            );
            &&& device.holds(
                shape.padded_value(graph, x, tensors),
                padded_rows(
                    held,
                    shape.frames as int,
                    shape.input_dim as int,
                    shape.target_dim as int,
                    shape.factor as int,
                ),
                shape.target_dim as int,
                shape.padded_frames(),
            )
            &&& host is Ok ==> device.holds(
                shape.rows_value(graph, x, tensors, weights),
                host->Ok_0,
                shape.target_dim as int,
                shape.out_frames(),
            )
        }),
{
    reveal(XasrDownsampleGraphShape::padded_value);
    reveal(XasrDownsampleGraphShape::rows_value);
    let m = device.host;
    let dim = shape.target_dim as int;
    let factor = shape.factor as int;
    let groups = shape.out_frames();
    let frames = shape.frames as int;
    law_groups_hold_all_rows(frames, factor);
    lemma_resized(
        device,
        x,
        graph.value(tensors.channel_pad->0),
        held,
        frames,
        shape.input_dim as int,
        dim,
    );
    let resized = layer_values::resized(
        x,
        graph.value(tensors.channel_pad->0),
        frames,
        shape.input_dim as int,
        dim,
    );
    lemma_filled(
        device,
        resized,
        graph.value(tensors.frame_pad->0),
        resized_rows(held, frames, shape.input_dim as int, dim),
        dim,
        frames,
        shape.padded_frames(),
    );
    let padded = padded_rows(held, frames, shape.input_dim as int, dim, factor);
    let padded_value = shape.padded_value(graph, x, tensors);
    let host = downsampled(
        m,
        held,
        shape.frames,
        shape.input_dim,
        shape.target_dim,
        logits,
    );
    if host is Ok {
        lemma_one_row(device, logits, shape.factor);
        let y = shape.rows_value(graph, x, tensors, weights);
        let part = |g: int| group_row(m, padded, weights, dim, g);
        assert forall|g: int| 0 <= g < groups implies (#[trigger] part(g)).len() == dim by {}
        rows::lemma_joined_len(groups, part, dim);
        assert(groups > 0) by (nonlinear_arith)
            requires
                frames <= groups * factor,
                frames > 0,
                factor > 0,
        ;
        lemma_phase_sum(
            device,
            padded_value,
            padded,
            weights,
            dim,
            factor,
            groups,
            factor,
            0,
            0,
        );
        assert forall|c: int, g: int| 0 <= c < dim && 0 <= g < groups implies device.value(
            #[trigger] (y.at)(c, g, 0, 0),
        ) == joined(groups, part)[g * dim + c] by {
            rows::lemma_joined_at(groups, part, dim, g, c);
            lemma_phase_sum(
                device,
                padded_value,
                padded,
                weights,
                dim,
                factor,
                groups,
                factor,
                c,
                g,
            );
        }
    }
}

/// A repeated row.
proof fn lemma_upsampled_at(
    device: Device,
    x: TensorValue,
    held: Seq<u32>,
    dim: int,
    frames: int,
    factor: int,
    target: int,
    c: int,
    t: int,
)
    requires
        device.holds(x, held, dim, frames),
        0 < factor,
        target <= frames * factor,
        0 <= c < dim,
        0 <= t < target,
    ensures
        layer_values::upsampled(x, dim, factor, target).has_shape(dim, target, 1, 1),
        0 <= t / factor < frames,
        (layer_values::upsampled(x, dim, factor, target).at)(c, t, 0, 0) == (x.at)(
            c,
            t / factor,
            0,
            0,
        ),
    decreases target,
{
    let top = (target - 1) / factor;
    vstd::arithmetic::div_mod::lemma_fundamental_div_mod(target - 1, factor);
    assert(0 <= top < frames) by (nonlinear_arith)
        requires
            target - 1 == factor * top + (target - 1) % factor,
            0 <= (target - 1) % factor < factor,
            1 <= target <= frames * factor,
    ;
    assert(top * (dim * 4) == (top * dim + 0) * 4) by (nonlinear_arith);
    lemma_window(x, dim, frames, dim, 1, 0, top, 1, dim * 4, top * (dim * 4), c, 0);
    if target > 1 {
        let earlier = if t < target - 1 {
            t
        } else {
            0
        };
        lemma_upsampled_at(device, x, held, dim, frames, factor, target - 1, c, earlier);
    }
}

/// An upsampling of a graph is that of the host.
pub proof fn law_graph_upsampling_is_the_host_one(
    device: Device,
    x: TensorValue,
    held: Seq<u32>,
    dim: int,
    frames: int,
    factor: int,
    target: int,
)
    requires
        device.holds(x, held, dim, frames),
        0 < factor,
        0 < target <= frames * factor,
        0 < dim,
    ensures
        device.holds(
            layer_values::upsampled(x, dim, factor, target),
            upsampled_rows(held, frames, dim, factor, target),
            dim,
            target,
        ),
{
    let y = layer_values::upsampled(x, dim, factor, target);
    let part = |t: int| upsampled_row(held, frames, dim, factor, t);
    assert forall|t: int| 0 <= t < target implies (#[trigger] part(t)).len() == dim by {
        lemma_upsampled_at(device, x, held, dim, frames, factor, target, 0, t);
        rows::lemma_part_bounds(t / factor, frames, dim);
    }
    rows::lemma_joined_len(target, part, dim);
    lemma_upsampled_at(device, x, held, dim, frames, factor, target, 0, 0);
    assert forall|c: int, t: int| 0 <= c < dim && 0 <= t < target implies device.value(
        #[trigger] (y.at)(c, t, 0, 0),
    ) == joined(target, part)[t * dim + c] by {
        rows::lemma_joined_at(target, part, dim, t, c);
        lemma_upsampled_at(device, x, held, dim, frames, factor, target, c, t);
        rows::lemma_part_bounds(t / factor, frames, dim);
        assert(device.value((x.at)(c, t / factor, 0, 0)) == held[(t / factor) * dim + c]);
    }
}

/// Columns that a graph takes are those that the host takes.
pub proof fn law_graph_columns_are_the_host_columns(
    device: Device,
    x: TensorValue,
    held: Seq<u32>,
    dim: int,
    frames: int,
    start: int,
    end: int,
)
    requires
        device.holds(x, held, dim, frames),
        0 <= start <= end <= dim,
        0 <= frames,
    ensures
        device.holds(
            layer_values::columns(x, dim, frames, start, end),
            sliced_rows(held, frames, dim, start, end),
            end - start,
            frames,
        ),
{
    let y = layer_values::columns(x, dim, frames, start, end);
    let width = end - start;
    let part = |t: int| part_of(held, dim, t).subrange(start, end);
    lemma_columns(device, x, held, dim, frames, start, width);
    assert forall|t: int| 0 <= t < frames implies (#[trigger] part(t)).len() == width by {
        rows::lemma_part_bounds(t, frames, dim);
    }
    rows::lemma_joined_len(frames, part, width);
    assert forall|c: int, t: int| 0 <= c < width && 0 <= t < frames implies device.value(
        #[trigger] (y.at)(c, t, 0, 0),
    ) == joined(frames, part)[t * width + c] by {
        rows::lemma_joined_at(frames, part, width, t, c);
        rows::lemma_part_bounds(t, frames, dim);
    }
}

/// Rows that a graph sets side by side are those that the host sets side by side.
pub proof fn law_graph_rows_side_by_side_are_those_of_the_host(
    device: Device,
    x: TensorValue,
    y: TensorValue,
    z: TensorValue,
    a: Seq<u32>,
    b: Seq<u32>,
    c: Seq<u32>,
    frames: int,
)
    requires
        device.holds(x, a, 256, frames),
        device.holds(y, b, 256, frames),
        device.holds(z, c, 256, frames),
        0 <= frames,
    ensures
        device.holds(
            x.concat(y, 0).concat(z, 0),
            side_by_side(a, b, c, frames),
            768,
            frames,
        ),
{
    let all = x.concat(y, 0).concat(z, 0);
    let part = |t: int| part_of(a, 256, t) + part_of(b, 256, t) + part_of(c, 256, t);
    assert forall|t: int| 0 <= t < frames implies (#[trigger] part(t)).len() == 768 by {
        rows::lemma_part_bounds(t, frames, 256);
    }
    rows::lemma_joined_len(frames, part, 768);
    assert forall|i: int, t: int| 0 <= i < 768 && 0 <= t < frames implies device.value(
        #[trigger] (all.at)(i, t, 0, 0),
    ) == joined(frames, part)[t * 768 + i] by {
        rows::lemma_joined_at(frames, part, 768, t, i);
        rows::lemma_part_bounds(t, frames, 256);
        if i < 256 {
            assert(device.value((x.at)(i, t, 0, 0)) == a[t * 256 + i]);
        } else if i < 512 {
            assert(device.value((y.at)(i - 256, t, 0, 0)) == b[t * 256 + (i - 256)]);
        } else {
            assert(device.value((z.at)(i - 512, t, 0, 0)) == c[t * 256 + (i - 512)]);
        }
    }
}

} // verus!
