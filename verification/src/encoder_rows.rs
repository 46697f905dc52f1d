//! Frame-major rows: `frames` parts of `dim` float bit patterns.

use vstd::prelude::*;
use vstd::string::StringExecFns;
use crate::encoder_error::{shape_error, XasrEncoderGraphError};
use crate::encoder_tables::shape_outcome;
use crate::rows;
use crate::rows::{joined, part_of};
use crate::text;
use crate::text::decimal;

verus! {

/// The text of a wrong number of values.
pub open spec fn count_text(name: Seq<char>, count: int, frames: usize, dim: usize) -> Seq<char> {
    name + " has "@ + decimal(count as nat) + " values, expected "@ + decimal(frames as nat) + "x"@
        + decimal(dim as nat) + "="@ + decimal((frames * dim) as nat)
}

/// Why `count` values are not `frames` rows of `dim`.
pub open spec fn rows_refusal(count: int, frames: usize, dim: usize, name: Seq<char>) -> Option<
    Seq<char>,
> {
    if frames * dim > usize::MAX {
        Some(name + " shape overflows"@)
    } else if count != frames * dim {
        Some(count_text(name, count, frames, dim))
    } else {
        None
    }
}

fn count_error(name: &str, count: usize, frames: usize, dim: usize, expected: usize) -> (error:
    XasrEncoderGraphError)
    requires
        expected == frames * dim,
    ensures
        error.is_shape(count_text(name@, count as int, frames, dim)),
{
    let mut reason = text::copy_text(name);
    reason.append(" has ");
    text::push_number(&mut reason, count);
    reason.append(" values, expected ");
    text::push_number(&mut reason, frames);
    reason.append("x");
    text::push_number(&mut reason, dim);
    reason.append("=");
    text::push_number(&mut reason, expected);
    XasrEncoderGraphError::Shape { reason }
}

/// Checks that `rows` holds `frames` rows of `dim` values.
pub fn validate_rows_len(rows: &[u32], frames: usize, dim: usize, name: &str) -> (result: Result<
    (),
    XasrEncoderGraphError,
>)
    ensures
        shape_outcome(result, rows_refusal(rows@.len() as int, frames, dim, name@)),
{
    let expected = match frames.checked_mul(dim) {
        Some(expected) => expected,
        None => {
            let mut reason = text::copy_text(name);
            reason.append(" shape overflows");
            return Err(XasrEncoderGraphError::Shape { reason });
        },
    };
    if rows.len() != expected {
        return Err(count_error(name, rows.len(), frames, dim, expected));
    }
    Ok(())
}

/// Features of an utterance: one row per frame.
#[derive(Clone, Debug, PartialEq)]
pub struct XasrEncoderFeatureInput {
    pub frames: usize,
    pub feature_dim: usize,
    pub rows: Vec<u32>,
}

impl XasrEncoderFeatureInput {
    /// The rows are as many as the frames.
    pub open spec fn wf(self) -> bool {
        self.rows@.len() == self.frames * self.feature_dim
    }

    /// Features of the given shape.
    pub fn new(frames: usize, feature_dim: usize, rows: Vec<u32>) -> (result: Result<
        Self,
        XasrEncoderGraphError,
    >)
        ensures
            shape_outcome(
                result,
                rows_refusal(rows@.len() as int, frames, feature_dim, "feature input"@),
            ),
            result is Ok ==> {
                &&& result->Ok_0.wf()
                &&& result->Ok_0.frames == frames
                &&& result->Ok_0.feature_dim == feature_dim
                &&& result->Ok_0.rows == rows
            },
    {
        validate_rows_len(rows.as_slice(), frames, feature_dim, "feature input")?;
        Ok(XasrEncoderFeatureInput { frames, feature_dim, rows })
    }
}

/// Rows that the encoder gives out.
#[derive(Clone, Debug, PartialEq)]
pub struct XasrEncoderGraphOutput {
    pub frames: usize,
    pub dim: usize,
    pub rows: Vec<u32>,
}

/// Why columns `start..end` of rows cannot be taken.
pub open spec fn slice_rows_refusal(
    count: int,
    frames: usize,
    dim: usize,
    start: usize,
    end: usize,
) -> Option<Seq<char>> {
    let shape = rows_refusal(count, frames, dim, "slice input"@);
    if shape is Some {
        shape
    } else if start > end || end > dim {
        Some(
            "slice range "@ + decimal(start as nat) + ".."@ + decimal(end as nat) + " exceeds dim "@
                + decimal(dim as nat),
        )
    } else {
        None
    }
}

/// Columns `start..end` of the rows.
pub open spec fn sliced_rows(
    rows: Seq<u32>,
    frames: int,
    dim: int,
    start: int,
    end: int,
) -> Seq<u32> {
    joined(frames, |t: int| part_of(rows, dim, t).subrange(start, end))
}

/// Takes columns `start..end` of the rows.
pub fn slice_frame_rows_reference(
    rows: &[u32],
    frames: usize,
    dim: usize,
    start: usize,
    end: usize,
) -> (result: Result<Vec<u32>, XasrEncoderGraphError>)
    ensures
        shape_outcome(result, slice_rows_refusal(rows@.len() as int, frames, dim, start, end)),
        result is Ok ==> result->Ok_0@ == sliced_rows(
            rows@,
            frames as int,
            dim as int,
            start as int,
            end as int,
        ),
{
    validate_rows_len(rows, frames, dim, "slice input")?;
    if start > end || end > dim {
        let mut reason = text::copy_text("slice range ");
        text::push_number(&mut reason, start);
        reason.append("..");
        text::push_number(&mut reason, end);
        reason.append(" exceeds dim ");
        text::push_number(&mut reason, dim);
        return Err(XasrEncoderGraphError::Shape { reason });
    }
    let ghost part = |t: int| part_of(rows@, dim as int, t).subrange(start as int, end as int);
    assert(rows.len() == rows@.len());
    let mut output: Vec<u32> = Vec::new();
    let mut frame: usize = 0;
    while frame < frames
        invariant
            frame <= frames,
            start <= end <= dim,
            rows@.len() == frames * dim,
            rows@.len() <= usize::MAX,
            part == (|t: int| part_of(rows@, dim as int, t).subrange(start as int, end as int)),
            output@ == joined(frame as int, part),
        decreases frames - frame,
    {
        proof {
            rows::lemma_part_bounds(frame as int, frames as int, dim as int);
        }
        let base = frame * dim;
        push_range(&mut output, rows, base + start, base + end);
        proof {
            assert(rows@.subrange(base + start, base + end) =~= part(frame as int));
            assert(output@ == joined(frame + 1, part));
        }
        frame = frame + 1;
    }
    Ok(output)
}

/// Appends elements `from..to` of `values`.
pub fn push_range(output: &mut Vec<u32>, values: &[u32], from: usize, to: usize)
    requires
        from <= to <= values@.len(),
    ensures
        final(output)@ == old(output)@ + values@.subrange(from as int, to as int),
{
    let mut i = from;
    assert(output@ =~= old(output)@ + values@.subrange(from as int, from as int));
    while i < to
        invariant
            from <= i <= to <= values@.len(),
            output@ == old(output)@ + values@.subrange(from as int, i as int),
        decreases to - i,
    {
        output.push(values[i]);
        assert(values@.subrange(from as int, i + 1) =~= values@.subrange(from as int, i as int).push(
            values@[i as int],
        ));
        i = i + 1;
    }
}

/// The widths of the first `count` parts together.
pub open spec fn total_width(parts: Seq<(&[u32], usize)>, count: int) -> int
    decreases count,
{
    if count <= 0 {
        0
    } else {
        total_width(parts, count - 1) + parts[count - 1].1
    }
}

/// Why one of the first `count` parts does not have its shape.
pub open spec fn concat_part_refusal(
    parts: Seq<(&[u32], usize)>,
    frames: usize,
    count: int,
) -> Option<
    Seq<char>,
>
    decreases count,
{
    if count <= 0 {
        None
    } else if concat_part_refusal(parts, frames, count - 1) is Some {
        concat_part_refusal(parts, frames, count - 1)
    } else {
        rows_refusal(
            parts[count - 1].0@.len() as int,
            frames,
            parts[count - 1].1,
            "concat input"@,
        )
    }
}

/// Why parts cannot be set side by side.
pub open spec fn concat_refusal(parts: Seq<(&[u32], usize)>, frames: usize) -> Option<Seq<char>> {
    let width = total_width(parts, parts.len() as int);
    if width > usize::MAX {
        Some("concat output dim overflows"@)
    } else if frames * width > usize::MAX {
        Some("concat output length overflows"@)
    } else {
        concat_part_refusal(parts, frames, parts.len() as int)
    }
}

/// Row `t` of the first `count` parts side by side.
pub open spec fn concat_row(parts: Seq<(&[u32], usize)>, t: int, count: int) -> Seq<u32>
    decreases count,
{
    if count <= 0 {
        Seq::empty()
    } else {
        concat_row(parts, t, count - 1) + part_of(
            parts[count - 1].0@,
            parts[count - 1].1 as int,
            t,
        )
    }
}

proof fn lemma_total_width_monotone(parts: Seq<(&[u32], usize)>, count: int, longer: int)
    requires
        0 <= count <= longer,
    ensures
        0 <= total_width(parts, count) <= total_width(parts, longer),
    decreases longer,
{
    if count < longer {
        lemma_total_width_monotone(parts, count, longer - 1);
    } else if count > 0 {
        lemma_total_width_monotone(parts, count - 1, count - 1);
    }
}

proof fn lemma_concat_part_refusal_monotone(
    parts: Seq<(&[u32], usize)>,
    frames: usize,
    count: int,
    longer: int,
)
    requires
        0 <= count <= longer,
        concat_part_refusal(parts, frames, count) is Some,
    ensures
        concat_part_refusal(parts, frames, longer) == concat_part_refusal(parts, frames, count),
    decreases longer,
{
    if count < longer {
        lemma_concat_part_refusal_monotone(parts, frames, count, longer - 1);
    }
}

/// An accepted part has its shape.
proof fn lemma_concat_part_shape(
    parts: Seq<(&[u32], usize)>,
    frames: usize,
    index: int,
    count: int,
)
    requires
        0 <= index < count,
        concat_part_refusal(parts, frames, count) is None,
    ensures
        parts[index].0@.len() == frames * parts[index].1,
    decreases count,
{
    if index < count - 1 {
        if concat_part_refusal(parts, frames, count - 1) is Some {
            lemma_concat_part_refusal_monotone(parts, frames, count - 1, count);
        }
        lemma_concat_part_shape(parts, frames, index, count - 1);
    }
}

fn push_concat_row(output: &mut Vec<u32>, parts: &[(&[u32], usize)], frames: usize, frame: usize)
    requires
        frame < frames,
        concat_part_refusal(parts@, frames, parts@.len() as int) is None,
    ensures
        final(output)@ == old(output)@ + concat_row(parts@, frame as int, parts@.len() as int),
{
    let mut p: usize = 0;
    assert(output@ =~= old(output)@ + concat_row(parts@, frame as int, 0));
    while p < parts.len()
        invariant
            p <= parts@.len(),
            frame < frames,
            concat_part_refusal(parts@, frames, parts@.len() as int) is None,
            output@ == old(output)@ + concat_row(parts@, frame as int, p as int),
        decreases parts@.len() - p,
    {
        let (rows, dim) = parts[p];
        proof {
            lemma_concat_part_shape(parts@, frames, p as int, parts@.len() as int);
            assert(rows.len() == rows@.len());
            rows::lemma_part_bounds(frame as int, frames as int, dim as int);
        }
        let base = frame * dim;
        push_range(output, rows, base, base + dim);
        proof {
            assert(output@ =~= old(output)@ + concat_row(parts@, frame as int, p + 1));
        }
        p = p + 1;
    }
}

/// Sets parts side by side, row by row.
pub fn concat_frame_rows_reference(frames: usize, parts: &[(&[u32], usize)]) -> (result: Result<
    Vec<u32>,
    XasrEncoderGraphError,
>)
    ensures
        shape_outcome(result, concat_refusal(parts@, frames)),
        result is Ok ==> result->Ok_0@ == joined(
            frames as int,
            |t: int| concat_row(parts@, t, parts@.len() as int),
        ),
{
    let ghost n = parts@.len() as int;
    let mut total_dim: usize = 0;
    let mut p: usize = 0;
    while p < parts.len()
        invariant
            p <= parts@.len(),
            n == parts@.len(),
            total_dim == total_width(parts@, p as int),
        decreases parts@.len() - p,
    {
        let (_, dim) = parts[p];
        proof {
            lemma_total_width_monotone(parts@, p + 1, n);
        }
        total_dim = match total_dim.checked_add(dim) {
            Some(total) => total,
            None => return Err(shape_error("concat output dim overflows")),
        };
        p = p + 1;
    }
    match frames.checked_mul(total_dim) {
        Some(_) => {},
        None => return Err(shape_error("concat output length overflows")),
    }
    let mut q: usize = 0;
    while q < parts.len()
        invariant
            q <= parts@.len(),
            n == parts@.len(),
            total_width(parts@, n) <= usize::MAX,
            frames * total_width(parts@, n) <= usize::MAX,
            concat_part_refusal(parts@, frames, q as int) is None,
        decreases parts@.len() - q,
    {
        let (rows, dim) = parts[q];
        proof {
            if concat_part_refusal(parts@, frames, q + 1) is Some {
                lemma_concat_part_refusal_monotone(parts@, frames, q + 1, n);
            }
        }
        validate_rows_len(rows, frames, dim, "concat input")?;
        q = q + 1;
    }
    let ghost row = |t: int| concat_row(parts@, t, n);
    let mut output: Vec<u32> = Vec::new();
    let mut frame: usize = 0;
    while frame < frames
        invariant
            frame <= frames,
            n == parts@.len(),
            row == (|t: int| concat_row(parts@, t, n)),
            concat_part_refusal(parts@, frames, n) is None,
            output@ == joined(frame as int, row),
        decreases frames - frame,
    {
        push_concat_row(&mut output, parts, frames, frame);
        assert(output@ == joined(frame + 1, row));
        frame = frame + 1;
    }
    Ok(output)
}

/// Columns cut apart and set side by side again are the rows.
pub proof fn law_concat_undoes_slicing(rows: Seq<u32>, frames: int, dim: int, cut: int)
    requires
        0 <= frames,
        0 <= cut <= dim,
        rows.len() == frames * dim,
    ensures
        joined(
            frames,
            |t: int|
                part_of(sliced_rows(rows, frames, dim, 0, cut), cut, t) + part_of(
                    sliced_rows(rows, frames, dim, cut, dim),
                    dim - cut,
                    t,
                ),
        ) == rows,
{
    let left = |t: int| part_of(rows, dim, t).subrange(0, cut);
    let right = |t: int| part_of(rows, dim, t).subrange(cut, dim);
    let both = |t: int|
        part_of(sliced_rows(rows, frames, dim, 0, cut), cut, t) + part_of(
            sliced_rows(rows, frames, dim, cut, dim),
            dim - cut,
            t,
        );
    let whole = |t: int| part_of(rows, dim, t);
    assert forall|i: int| 0 <= i < frames implies (#[trigger] left(i)).len() == cut by {
        rows::lemma_part_bounds(i, frames, dim);
    }
    assert forall|i: int| 0 <= i < frames implies (#[trigger] right(i)).len() == dim - cut by {
        rows::lemma_part_bounds(i, frames, dim);
    }
    assert forall|t: int| 0 <= t < frames implies #[trigger] both(t) == whole(t) by {
        rows::lemma_part_bounds(t, frames, dim);
        lemma_part_of_joined(frames, left, cut, t);
        lemma_part_of_joined(frames, right, dim - cut, t);
        assert(left(t) + right(t) =~= whole(t));
    }
    rows::lemma_joined_same(frames, both, whole);
    rows::lemma_joined_parts(rows, frames, dim);
}

/// Part `t` of joined parts is that part.
pub proof fn lemma_part_of_joined(n: int, part: spec_fn(int) -> Seq<u32>, width: int, t: int)
    requires
        0 <= t < n,
        0 <= width,
        forall|i: int| 0 <= i < n ==> (#[trigger] part(i)).len() == width,
    ensures
        part_of(joined(n, part), width, t) == part(t),
{
    rows::lemma_joined_len(n, part, width);
    rows::lemma_part_bounds(t, n, width);
    assert(part(t).len() == width);
    assert forall|c: int| 0 <= c < width implies part_of(joined(n, part), width, t)[c] == part(t)[c] by {
        rows::lemma_joined_at(n, part, width, t, c);
    }
    assert(part_of(joined(n, part), width, t) =~= part(t));
}

} // verus!
