use vstd::prelude::*;

use vstd::arithmetic::div_mod::{lemma_div_is_ordered, lemma_fundamental_div_mod};

use crate::geometry::{iou_exceeds, is_valid_box, within_limits, BoundingBox, SCALE};
use crate::nms::{
    lemma_suppressed_descending, lemma_suppressed_no_overlap, lemma_suppressed_valid,
    non_max_suppression, suppressed,
};

verus! {

/// Side of the square model input, in pixels.
pub const MODEL_SIDE: i64 = 640;

/// Minimum confidence kept when none is configured (0.50).
pub const DEFAULT_MIN_PROBABILITY: i64 = 500_000;

/// Output of the detection model: a tensor of shape `[1, 4 + C, N]` flattened in
/// row-major order. For anchor `a`, channels 0 to 3 hold the box centre and size
/// `(xc, yc, w, h)` in model pixels, and channel `4 + c` the score of class `c`.
/// Values are fixed-point millionths.
pub struct OutputTensor {
    pub shape: Vec<usize>,
    pub data: Vec<i32>,
}

/// Why a model output could not be turned into detections.
#[derive(Clone, Copy, Debug, PartialEq, Eq, Structural)]
pub enum PostprocessError {
    /// The tensor is not of shape `[1, 4 + C, N]` with `C >= 1`, or its data
    /// does not fill that shape, or `C` does not fit a class id.
    InvalidShape,
}

/// The shape `[1, 4 + C, N]`, with at least one class, the data filling it
/// exactly, and class indices that fit in a `u32`.
pub open spec fn shape_ok(shape: Seq<usize>, len: nat) -> bool {
    &&& shape.len() == 3
    &&& shape[0] == 1
    &&& shape[1] >= 5
    &&& shape[1] - 4 <= u32::MAX + 1
    &&& shape[1] * shape[2] == len
}

/// Value of channel `c` at anchor `a`.
pub open spec fn value_at(data: Seq<i32>, anchors: int, c: int, a: int) -> int {
    data[c * anchors + a] as int
}

/// Score of class `c` at anchor `a`.
pub open spec fn class_score(data: Seq<i32>, anchors: int, c: int, a: int) -> int {
    value_at(data, anchors, 4 + c, a)
}

/// The first class of highest score among classes `0..k` at anchor `a`.
pub open spec fn best_class(data: Seq<i32>, anchors: int, a: int, k: int) -> int
    decreases k,
{
    if k <= 1 {
        0
    } else {
        let i = best_class(data, anchors, a, k - 1);
        if class_score(data, anchors, k - 1, a) > class_score(data, anchors, i, a) {
            k - 1
        } else {
            i
        }
    }
}

/// Lower corner of an extent of centre `c` and size `s` (model pixels, fixed
/// point) scaled to an image side of `dim` pixels: `(c - s / 2) * dim / 640`, floored.
pub open spec fn scaled_low(c: int, s: int, dim: int) -> int {
    ((2 * c - s) * dim) / (2 * MODEL_SIDE)
}

/// Upper corner: `(c + s / 2) * dim / 640`, floored.
pub open spec fn scaled_high(c: int, s: int, dim: int) -> int {
    ((2 * c + s) * dim) / (2 * MODEL_SIDE)
}

/// The detection read from anchor `a` of a tensor with `classes` classes, for an
/// original image of `width` by `height` pixels.
pub open spec fn anchor_box(
    data: Seq<i32>,
    anchors: int,
    classes: int,
    a: int,
    width: int,
    height: int,
) -> BoundingBox {
    let c = best_class(data, anchors, a, classes);
    let xc = value_at(data, anchors, 0, a);
    let yc = value_at(data, anchors, 1, a);
    let w = value_at(data, anchors, 2, a);
    let h = value_at(data, anchors, 3, a);
    BoundingBox {
        class_id: c as u32,
        confidence: class_score(data, anchors, c, a) as i64,
        x1: scaled_low(xc, w, width) as i64,
        y1: scaled_low(yc, h, height) as i64,
        x2: scaled_high(xc, w, width) as i64,
        y2: scaled_high(yc, h, height) as i64,
    }
}

/// Anchor `a` gives a detection: its confidence is at least `min_probability`
/// and at most 1, and its box size is not negative.
pub open spec fn anchor_kept(
    data: Seq<i32>,
    anchors: int,
    classes: int,
    a: int,
    min_probability: int,
) -> bool {
    let c = best_class(data, anchors, a, classes);
    &&& class_score(data, anchors, c, a) >= min_probability
    &&& class_score(data, anchors, c, a) <= SCALE
    &&& value_at(data, anchors, 2, a) >= 0
    &&& value_at(data, anchors, 3, a) >= 0
}

/// The detections of anchors `0..k` that are kept (see `anchor_kept`), in anchor order.
pub open spec fn decoded(
    data: Seq<i32>,
    anchors: int,
    classes: int,
    k: int,
    width: int,
    height: int,
    min_probability: int,
) -> Seq<BoundingBox>
    decreases k,
{
    if k <= 0 {
        Seq::empty()
    } else {
        let prev = decoded(data, anchors, classes, k - 1, width, height, min_probability);
        let b = anchor_box(data, anchors, classes, k - 1, width, height);
        if anchor_kept(data, anchors, classes, k - 1, min_probability) {
            prev.push(b)
        } else {
            prev
        }
    }
}

/// What the postprocessor returns on a tensor of valid shape: the decoded
/// detections after non-maximum suppression.
pub open spec fn detections_of(
    t: Seq<i32>,
    anchors: int,
    classes: int,
    width: int,
    height: int,
    min_probability: int,
) -> Seq<BoundingBox> {
    suppressed(decoded(t, anchors, classes, anchors, width, height, min_probability))
}

proof fn lemma_index_in_bounds(c: int, a: int, channels: int, anchors: int)
    requires
        0 <= c < channels,
        0 <= a < anchors,
    ensures
        0 <= c * anchors + a < channels * anchors,
{
    assert(0 <= c * anchors + a < channels * anchors) by (nonlinear_arith)
        requires
            0 <= c < channels,
            0 <= a < anchors,
    ;
}

proof fn lemma_best_class_range(data: Seq<i32>, anchors: int, a: int, k: int)
    requires
        k >= 1,
    ensures
        0 <= best_class(data, anchors, a, k) < k,
    decreases k,
{
    if k > 1 {
        lemma_best_class_range(data, anchors, a, k - 1);
    }
}

proof fn lemma_scaled_ordered(c: i32, s: i32, dim: u32)
    requires
        s >= 0,
    ensures
        scaled_low(c as int, s as int, dim as int) as i64 <= scaled_high(c as int, s as int, dim as int) as i64,
{
    let m: int = 0x1_8000_0000;
    let lo: int = 2 * c - s;
    let hi: int = 2 * c + s;
    assert(-(m * 0x1_0000_0000) <= lo * dim <= m * 0x1_0000_0000) by (nonlinear_arith)
        requires
            -m <= lo <= m,
            0 <= dim < 0x1_0000_0000,
    ;
    assert(-(m * 0x1_0000_0000) <= hi * dim <= m * 0x1_0000_0000) by (nonlinear_arith)
        requires
            -m <= hi <= m,
            0 <= dim < 0x1_0000_0000,
    ;
    assert(lo * dim <= hi * dim) by (nonlinear_arith)
        requires
            lo <= hi,
            0 <= dim,
    ;
    lemma_fundamental_div_mod(lo * dim, 1280);
    lemma_fundamental_div_mod(hi * dim, 1280);
    lemma_div_is_ordered(lo * dim, hi * dim, 1280);
}

/// Decoded detections are valid: confidences lie in `[0, 1]` and corners are
/// ordered, provided the threshold is not negative.
pub proof fn lemma_decoded_valid(
    data: Seq<i32>,
    anchors: int,
    classes: int,
    k: int,
    width: u32,
    height: u32,
    min_probability: int,
)
    requires
        classes >= 1,
        0 <= k <= anchors,
        data.len() == (4 + classes) * anchors,
        min_probability >= 0,
    ensures
        forall|j: int|
            0 <= j < decoded(data, anchors, classes, k, width as int, height as int, min_probability).len()
                ==> is_valid_box(
                #[trigger] decoded(data, anchors, classes, k, width as int, height as int, min_probability)[j],
            ),
    decreases k,
{
    if k > 0 {
        lemma_decoded_valid(data, anchors, classes, k - 1, width, height, min_probability);
        let a = k - 1;
        let b = anchor_box(data, anchors, classes, a, width as int, height as int);
        let c = best_class(data, anchors, a, classes);
        lemma_best_class_range(data, anchors, a, classes);
        lemma_index_in_bounds(0, a, 4 + classes, anchors);
        lemma_index_in_bounds(1, a, 4 + classes, anchors);
        lemma_index_in_bounds(2, a, 4 + classes, anchors);
        lemma_index_in_bounds(3, a, 4 + classes, anchors);
        lemma_index_in_bounds(4 + c, a, 4 + classes, anchors);
        let prev = decoded(data, anchors, classes, a, width as int, height as int, min_probability);
        if anchor_kept(data, anchors, classes, a, min_probability) {
            lemma_scaled_ordered(data[a], data[2 * anchors + a], width);
            lemma_scaled_ordered(data[anchors + a], data[3 * anchors + a], height);
            assert(is_valid_box(b));
            assert forall|j: int| 0 <= j < prev.len() + 1 implies is_valid_box(
                #[trigger] prev.push(b)[j],
            ) by {
                if j < prev.len() {
                    assert(prev.push(b)[j] == prev[j]);
                }
            }
        }
    }
}

/// Every detection the postprocessor reports has a confidence in `[0, 1]` and
/// ordered corners, provided the threshold is not negative.
pub proof fn lemma_detections_valid(
    data: Seq<i32>,
    anchors: int,
    classes: int,
    width: u32,
    height: u32,
    min_probability: int,
)
    requires
        classes >= 1,
        anchors >= 0,
        data.len() == (4 + classes) * anchors,
        min_probability >= 0,
    ensures
        forall|j: int|
            0 <= j < detections_of(data, anchors, classes, width as int, height as int, min_probability).len()
                ==> is_valid_box(
                #[trigger] detections_of(data, anchors, classes, width as int, height as int, min_probability)[j],
            ),
{
    lemma_decoded_valid(data, anchors, classes, anchors, width, height, min_probability);
    lemma_suppressed_valid(decoded(data, anchors, classes, anchors, width as int, height as int, min_probability));
}

/// What holds of every list of detections the postprocessor reports: no two
/// overlap beyond an IoU of 0.70, confidences do not increase along the list,
/// and, for a threshold that is not negative, every detection is valid.
pub open spec fn reported(d: Seq<BoundingBox>, min_probability: int) -> bool {
    &&& forall|i: int, j: int|
        0 <= i < d.len() && 0 <= j < d.len() && i != j ==> !iou_exceeds(
            #[trigger] d[i],
            #[trigger] d[j],
        )
    &&& forall|i: int, j: int|
        0 <= i < j < d.len() ==> #[trigger] d[i].confidence >= #[trigger] d[j].confidence
    &&& min_probability >= 0 ==> forall|k: int| 0 <= k < d.len() ==> is_valid_box(#[trigger] d[k])
}

/// The detections of any model output of valid shape satisfy `reported`.
pub proof fn lemma_detections_reported(
    data: Seq<i32>,
    anchors: int,
    classes: int,
    width: u32,
    height: u32,
    min_probability: int,
)
    requires
        classes >= 1,
        anchors >= 0,
        data.len() == (4 + classes) * anchors,
    ensures
        reported(
            detections_of(data, anchors, classes, width as int, height as int, min_probability),
            min_probability,
        ),
{
    let s = decoded(data, anchors, classes, anchors, width as int, height as int, min_probability);
    lemma_suppressed_no_overlap(s);
    lemma_suppressed_descending(s);
    if min_probability >= 0 {
        lemma_detections_valid(data, anchors, classes, width, height, min_probability);
    }
}

/// Floor of `n / 1280`, kept within the coordinate limit.
fn scale_corner(n: i128) -> (r: i64)
    requires
        -0x6_0000_0000_0000_0000 <= n <= 0x6_0000_0000_0000_0000,
    ensures
        r == (n as int) / (2 * MODEL_SIDE as int),
        -crate::geometry::COORD_LIMIT <= r <= crate::geometry::COORD_LIMIT,
{
    proof {
        lemma_fundamental_div_mod(n as int, 1280);
    }
    match n.checked_div_euclid(1280) {
        Some(q) => q as i64,
        None => 0,
    }
}

/// The corners `(low, high)` of an extent of centre `c` and size `s` scaled to `dim`.
fn scaled_extent(c: i32, s: i32, dim: u32) -> (r: (i64, i64))
    ensures
        r.0 == scaled_low(c as int, s as int, dim as int),
        r.1 == scaled_high(c as int, s as int, dim as int),
        -crate::geometry::COORD_LIMIT <= r.0 <= crate::geometry::COORD_LIMIT,
        -crate::geometry::COORD_LIMIT <= r.1 <= crate::geometry::COORD_LIMIT,
{
    let lo: i128 = 2 * (c as i128) - (s as i128);
    let hi: i128 = 2 * (c as i128) + (s as i128);
    proof {
        let m: int = 0x1_8000_0000;
        assert(-m <= lo <= m && -m <= hi <= m);
        assert(-(m * 0x1_0000_0000) <= lo * dim <= m * 0x1_0000_0000) by (nonlinear_arith)
            requires
                -m <= lo <= m,
                0 <= dim < 0x1_0000_0000,
        ;
        assert(-(m * 0x1_0000_0000) <= hi * dim <= m * 0x1_0000_0000) by (nonlinear_arith)
            requires
                -m <= hi <= m,
                0 <= dim < 0x1_0000_0000,
        ;
    }
    (scale_corner(lo * (dim as i128)), scale_corner(hi * (dim as i128)))
}

/// Class of highest score at anchor `a` (the first one on a tie), with its score.
fn argmax_class(data: &Vec<i32>, anchors: usize, classes: usize, a: usize) -> (r: (usize, i32))
    requires
        classes >= 1,
        a < anchors,
        data.len() == (4 + classes) * anchors,
    ensures
        r.0 == best_class(data@, anchors as int, a as int, classes as int),
        r.1 == class_score(data@, anchors as int, r.0 as int, a as int),
        r.0 < classes,
{
    proof {
        lemma_index_in_bounds(4, a as int, 4 + classes, anchors as int);
    }
    let mut best: usize = 0;
    let mut best_score: i32 = data[4 * anchors + a];
    let mut c: usize = 1;
    while c < classes
        invariant
            1 <= c <= classes,
            a < anchors,
            data.len() == (4 + classes) * anchors,
            best == best_class(data@, anchors as int, a as int, c as int),
            best < c,
            best_score == class_score(data@, anchors as int, best as int, a as int),
        decreases classes - c,
    {
        proof {
            lemma_index_in_bounds(4 + c, a as int, 4 + classes, anchors as int);
            assert((4 + c) * anchors <= (4 + c) * anchors + a);
            assert(4 + c <= (4 + classes) * anchors) by (nonlinear_arith)
                requires
                    c < classes,
                    a < anchors,
            ;
        }
        let score = data[(4 + c) * anchors + a];
        if score > best_score {
            best = c;
            best_score = score;
        }
        c = c + 1;
    }
    (best, best_score)
}

/// Decodes every anchor of the tensor into a detection in the coordinates of a
/// `width` by `height` image and keeps those whose confidence is at least
/// `min_probability`, in anchor order.
pub fn decode_detections(
    data: &Vec<i32>,
    anchors: usize,
    classes: usize,
    width: u32,
    height: u32,
    min_probability: i64,
) -> (r: Vec<BoundingBox>)
    requires
        1 <= classes <= u32::MAX + 1,
        data.len() == (4 + classes) * anchors,
    ensures
        r@ == decoded(
            data@,
            anchors as int,
            classes as int,
            anchors as int,
            width as int,
            height as int,
            min_probability as int,
        ),
        forall|k: int| 0 <= k < r.len() ==> within_limits(#[trigger] r@[k]),
{
    let mut out: Vec<BoundingBox> = Vec::new();
    let mut a: usize = 0;
    while a < anchors
        invariant
            a <= anchors,
            1 <= classes <= u32::MAX + 1,
            data.len() == (4 + classes) * anchors,
            out@ == decoded(
                data@,
                anchors as int,
                classes as int,
                a as int,
                width as int,
                height as int,
                min_probability as int,
            ),
            forall|k: int| 0 <= k < out.len() ==> within_limits(#[trigger] out@[k]),
        decreases anchors - a,
    {
        let (class_id, score) = argmax_class(data, anchors, classes, a);
        proof {
            lemma_index_in_bounds(0, a as int, 4 + classes, anchors as int);
            lemma_index_in_bounds(1, a as int, 4 + classes, anchors as int);
            lemma_index_in_bounds(2, a as int, 4 + classes, anchors as int);
            lemma_index_in_bounds(3, a as int, 4 + classes, anchors as int);
        }
        if score as i64 >= min_probability && score as i64 <= SCALE && data[2 * anchors + a] >= 0
            && data[3 * anchors + a] >= 0 {
            let (x1, x2) = scaled_extent(data[a], data[2 * anchors + a], width);
            let (y1, y2) = scaled_extent(data[anchors + a], data[3 * anchors + a], height);
            let b = BoundingBox {
                class_id: class_id as u32,
                confidence: score as i64,
                x1,
                y1,
                x2,
                y2,
            };
            out.push(b);
        }
        a = a + 1;
    }
    out
}

/// Turns the model output for an image of `width` by `height` pixels into the
/// detections to report: decoding, the confidence filter, then non-maximum
/// suppression. Fails when the tensor is not of shape `[1, 4 + C, N]`.
pub fn postprocess(
    output: &OutputTensor,
    width: u32,
    height: u32,
    min_probability: i64,
) -> (r: Result<Vec<BoundingBox>, PostprocessError>)
    ensures
        shape_ok(output.shape@, output.data@.len()) ==> r == Ok::<Vec<BoundingBox>, PostprocessError>(r->Ok_0)
            && r->Ok_0@ == detections_of(
            output.data@,
            output.shape@[2] as int,
            output.shape@[1] - 4,
            width as int,
            height as int,
            min_probability as int,
        ),
        !shape_ok(output.shape@, output.data@.len()) ==> r == Err::<Vec<BoundingBox>, PostprocessError>(PostprocessError::InvalidShape),
        r matches Ok(v) ==> reported(v@, min_probability as int),
{
    if output.shape.len() != 3 || output.shape[0] != 1 || output.shape[1] < 5 {
        return Err(PostprocessError::InvalidShape);
    }
    let channels = output.shape[1];
    let anchors = output.shape[2];
    let classes = channels - 4;
    let len = output.data.len();
    if classes as u64 > u32::MAX as u64 + 1 {
        return Err(PostprocessError::InvalidShape);
    }
    match channels.checked_mul(anchors) {
        Some(n) => {
            if n != len {
                return Err(PostprocessError::InvalidShape);
            }
        },
        None => {
            return Err(PostprocessError::InvalidShape);
        },
    }
    let boxes = decode_detections(&output.data, anchors, classes, width, height, min_probability);
    let r = non_max_suppression(boxes);
    proof {
        lemma_detections_reported(
            output.data@,
            anchors as int,
            classes as int,
            width,
            height,
            min_probability as int,
        );
    }
    Ok(r)
}

} // verus!
