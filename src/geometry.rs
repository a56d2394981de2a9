use vstd::prelude::*;

verus! {

/// One unit of the fixed-point scale: confidences and coordinates are held
/// in millionths, so `SCALE` stands for 1.0 (a confidence of 100%, one pixel).
pub const SCALE: i64 = 1_000_000;

/// Largest magnitude of a coordinate for which areas and the overlap test
/// are computed without overflow (2^59 millionths of a pixel).
pub const COORD_LIMIT: i64 = 576_460_752_303_423_488;

/// A detection: the class index, the confidence, and the corners of the
/// axis-aligned box in the original image's pixel coordinates. Confidence and
/// coordinates are fixed-point values in millionths (see `SCALE`).
#[derive(Clone, Copy, Debug, PartialEq, Eq, Structural)]
pub struct BoundingBox {
    pub class_id: u32,
    pub confidence: i64,
    pub x1: i64,
    pub y1: i64,
    pub x2: i64,
    pub y2: i64,
}

/// Every coordinate lies within `[-COORD_LIMIT, COORD_LIMIT]`.
pub open spec fn within_limits(b: BoundingBox) -> bool {
    &&& -COORD_LIMIT <= b.x1 <= COORD_LIMIT
    &&& -COORD_LIMIT <= b.y1 <= COORD_LIMIT
    &&& -COORD_LIMIT <= b.x2 <= COORD_LIMIT
    &&& -COORD_LIMIT <= b.y2 <= COORD_LIMIT
}

/// A well-formed detection: a confidence in `[0, 1]` and ordered corners.
pub open spec fn is_valid_box(b: BoundingBox) -> bool {
    &&& 0 <= b.confidence <= SCALE
    &&& b.x1 <= b.x2
    &&& b.y1 <= b.y2
}

pub open spec fn min_int(a: int, b: int) -> int {
    if a <= b { a } else { b }
}

pub open spec fn max_int(a: int, b: int) -> int {
    if a >= b { a } else { b }
}

/// Length of the overlap of the intervals `[lo1, hi1]` and `[lo2, hi2]`,
/// clamped to zero when they are disjoint.
pub open spec fn overlap_len(lo1: int, hi1: int, lo2: int, hi2: int) -> int {
    max_int(0, min_int(hi1, hi2) - max_int(lo1, lo2))
}

/// Area of the intersection of two boxes.
pub open spec fn intersection_area(a: BoundingBox, b: BoundingBox) -> int {
    overlap_len(a.x1 as int, a.x2 as int, b.x1 as int, b.x2 as int) * overlap_len(
        a.y1 as int,
        a.y2 as int,
        b.y1 as int,
        b.y2 as int,
    )
}

pub open spec fn area(b: BoundingBox) -> int {
    (b.x2 - b.x1) * (b.y2 - b.y1)
}

/// Area of the union of two boxes.
pub open spec fn union_area(a: BoundingBox, b: BoundingBox) -> int {
    area(a) + area(b) - intersection_area(a, b)
}

/// The intersection over union of `a` and `b` exceeds 0.70. Two boxes whose
/// union is empty have no overlap.
pub open spec fn iou_exceeds(a: BoundingBox, b: BoundingBox) -> bool {
    union_area(a, b) > 0 && 10 * intersection_area(a, b) > 7 * union_area(a, b)
}

/// The overlap test does not depend on the order of its arguments.
pub proof fn lemma_iou_exceeds_symmetric(a: BoundingBox, b: BoundingBox)
    ensures
        iou_exceeds(a, b) == iou_exceeds(b, a),
{
    assert(intersection_area(a, b) == intersection_area(b, a));
}

fn clamped_overlap(lo1: i64, hi1: i64, lo2: i64, hi2: i64) -> (r: i128)
    requires
        -COORD_LIMIT <= lo1 <= COORD_LIMIT,
        -COORD_LIMIT <= hi1 <= COORD_LIMIT,
        -COORD_LIMIT <= lo2 <= COORD_LIMIT,
        -COORD_LIMIT <= hi2 <= COORD_LIMIT,
    ensures
        r == overlap_len(lo1 as int, hi1 as int, lo2 as int, hi2 as int),
        0 <= r <= 2 * COORD_LIMIT,
{
    let hi: i64 = if hi1 <= hi2 { hi1 } else { hi2 };
    let lo: i64 = if lo1 >= lo2 { lo1 } else { lo2 };
    let d: i128 = hi as i128 - lo as i128;
    if d > 0 { d } else { 0 }
}

fn box_area(b: &BoundingBox) -> (r: i128)
    requires
        within_limits(*b),
    ensures
        r == area(*b),
        -(4 * COORD_LIMIT * COORD_LIMIT) <= r <= 4 * COORD_LIMIT * COORD_LIMIT,
{
    let w: i128 = b.x2 as i128 - b.x1 as i128;
    let h: i128 = b.y2 as i128 - b.y1 as i128;
    proof {
        let l: int = 2 * COORD_LIMIT;
        assert(-(l * l) <= w * h <= l * l) by (nonlinear_arith)
            requires
                -l <= w <= l,
                -l <= h <= l,
                l > 0,
        ;
    }
    w * h
}

/// Whether the intersection over union of `a` and `b` exceeds 0.70, computed
/// exactly on the fixed-point coordinates.
pub fn exceeds_iou_threshold(a: &BoundingBox, b: &BoundingBox) -> (r: bool)
    requires
        within_limits(*a),
        within_limits(*b),
    ensures
        r == iou_exceeds(*a, *b),
{
    let w = clamped_overlap(a.x1, a.x2, b.x1, b.x2);
    let h = clamped_overlap(a.y1, a.y2, b.y1, b.y2);
    proof {
        let l: int = 2 * COORD_LIMIT;
        assert(0 <= w * h <= l * l) by (nonlinear_arith)
            requires
                0 <= w <= l,
                0 <= h <= l,
        ;
    }
    let inter: i128 = w * h;
    let union: i128 = box_area(a) + box_area(b) - inter;
    union > 0 && 10 * inter > 7 * union
}

} // verus!
