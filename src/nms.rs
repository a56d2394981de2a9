use vstd::prelude::*;

use crate::geometry::{exceeds_iou_threshold, iou_exceeds, is_valid_box, within_limits, BoundingBox};

verus! {

/// Index of the first detection of greatest confidence in `s` (0 when `s` is empty).
pub open spec fn best_index(s: Seq<BoundingBox>) -> int
    decreases s.len(),
{
    if s.len() <= 1 {
        0
    } else {
        let i = best_index(s.drop_last());
        if s.last().confidence > s[i].confidence {
            s.len() - 1
        } else {
            i
        }
    }
}

/// The detections of `s`, in order, whose overlap with `kept` does not exceed the threshold.
pub open spec fn survivors(s: Seq<BoundingBox>, kept: BoundingBox) -> Seq<BoundingBox>
    decreases s.len(),
{
    if s.len() == 0 {
        s
    } else {
        let r = survivors(s.drop_last(), kept);
        if iou_exceeds(kept, s.last()) {
            r
        } else {
            r.push(s.last())
        }
    }
}

/// Greedy non-maximum suppression: emit the most confident detection (the first
/// one on a tie), take it and every detection overlapping it beyond the threshold
/// out of the pool, and repeat on what is left.
pub open spec fn suppressed(s: Seq<BoundingBox>) -> Seq<BoundingBox>
    decreases s.len(),
    via suppressed_decreases
{
    if s.len() == 0 {
        Seq::empty()
    } else {
        let i = best_index(s);
        seq![s[i]] + suppressed(survivors(s.remove(i), s[i]))
    }
}

#[via_fn]
proof fn suppressed_decreases(s: Seq<BoundingBox>) {
    if s.len() > 0 {
        let i = best_index(s);
        lemma_best_index(s);
        lemma_survivors(s.remove(i), s[i]);
    }
}

pub proof fn lemma_best_index(s: Seq<BoundingBox>)
    requires
        s.len() > 0,
    ensures
        0 <= best_index(s) < s.len(),
        forall|m: int| 0 <= m < s.len() ==> #[trigger] s[m].confidence <= s[best_index(s)].confidence,
    decreases s.len(),
{
    if s.len() > 1 {
        lemma_best_index(s.drop_last());
        let i = best_index(s.drop_last());
        assert forall|m: int| 0 <= m < s.len() implies #[trigger] s[m].confidence <= s[best_index(s)].confidence by {
            if m < s.len() - 1 {
                assert(s.drop_last()[m] == s[m]);
            }
        }
    }
}

pub proof fn lemma_survivors(s: Seq<BoundingBox>, kept: BoundingBox)
    ensures
        survivors(s, kept).len() <= s.len(),
        forall|j: int|
            0 <= j < survivors(s, kept).len() ==> s.contains(#[trigger] survivors(s, kept)[j])
                && !iou_exceeds(kept, survivors(s, kept)[j]),
    decreases s.len(),
{
    if s.len() > 0 {
        let r = survivors(s.drop_last(), kept);
        lemma_survivors(s.drop_last(), kept);
        assert forall|j: int| 0 <= j < survivors(s, kept).len() implies s.contains(
            #[trigger] survivors(s, kept)[j],
        ) && !iou_exceeds(kept, survivors(s, kept)[j]) by {
            if j < r.len() {
                let k = choose|k: int| 0 <= k < s.drop_last().len() && s.drop_last()[k] == r[j];
                assert(s[k] == r[j]);
            } else {
                assert(s[s.len() - 1] == s.last());
            }
        }
    }
}

/// Every emitted detection is one of the input detections.
pub proof fn lemma_suppressed_members(s: Seq<BoundingBox>)
    ensures
        forall|j: int| 0 <= j < suppressed(s).len() ==> s.contains(#[trigger] suppressed(s)[j]),
    decreases s.len(),
{
    if s.len() > 0 {
        let i = best_index(s);
        lemma_best_index(s);
        let rest = survivors(s.remove(i), s[i]);
        lemma_survivors(s.remove(i), s[i]);
        lemma_suppressed_members(rest);
        assert forall|j: int| 0 <= j < suppressed(s).len() implies s.contains(
            #[trigger] suppressed(s)[j],
        ) by {
            if j > 0 {
                let x = suppressed(rest)[j - 1];
                assert(suppressed(s)[j] == x);
                assert(rest.contains(x));
                let k = choose|k: int| 0 <= k < rest.len() && rest[k] == x;
                assert(s.remove(i).contains(x));
                let m = choose|m: int| 0 <= m < s.remove(i).len() && s.remove(i)[m] == x;
                if m < i {
                    assert(s[m] == x);
                } else {
                    assert(s[m + 1] == x);
                }
            } else {
                assert(s[i] == suppressed(s)[0]);
            }
        }
    }
}

/// After suppression the detections come in order of non-increasing confidence.
pub proof fn lemma_suppressed_descending(s: Seq<BoundingBox>)
    ensures
        forall|i: int, j: int|
            0 <= i < j < suppressed(s).len() ==> #[trigger] suppressed(s)[i].confidence
                >= #[trigger] suppressed(s)[j].confidence,
    decreases s.len(),
{
    if s.len() > 0 {
        let b = best_index(s);
        lemma_best_index(s);
        let rest = survivors(s.remove(b), s[b]);
        lemma_survivors(s.remove(b), s[b]);
        lemma_suppressed_descending(rest);
        lemma_suppressed_members(s);
        let out = suppressed(s);
        assert forall|i: int, j: int| 0 <= i < j < out.len() implies #[trigger] out[i].confidence
            >= #[trigger] out[j].confidence by {
            if i == 0 {
                let k = choose|k: int| 0 <= k < s.len() && s[k] == out[j];
                assert(out[0] == s[b]);
            } else {
                assert(out[i] == suppressed(rest)[i - 1]);
                assert(out[j] == suppressed(rest)[j - 1]);
            }
        }
    }
}

/// After suppression no two distinct detections overlap beyond the threshold.
pub proof fn lemma_suppressed_no_overlap(s: Seq<BoundingBox>)
    ensures
        forall|i: int, j: int|
            0 <= i < suppressed(s).len() && 0 <= j < suppressed(s).len() && i != j
                ==> !iou_exceeds(#[trigger] suppressed(s)[i], #[trigger] suppressed(s)[j]),
    decreases s.len(),
{
    if s.len() > 0 {
        let b = best_index(s);
        lemma_best_index(s);
        let rest = survivors(s.remove(b), s[b]);
        lemma_survivors(s.remove(b), s[b]);
        lemma_suppressed_no_overlap(rest);
        lemma_suppressed_members(rest);
        let out = suppressed(s);
        assert forall|i: int, j: int|
            0 <= i < out.len() && 0 <= j < out.len() && i != j implies !iou_exceeds(
            #[trigger] out[i],
            #[trigger] out[j],
        ) by {
            if i == 0 || j == 0 {
                let o = if i == 0 { j } else { i };
                let x = out[o];
                assert(x == suppressed(rest)[o - 1]);
                assert(rest.contains(x));
                let k = choose|k: int| 0 <= k < rest.len() && rest[k] == x;
                assert(!iou_exceeds(s[b], x));
                crate::geometry::lemma_iou_exceeds_symmetric(s[b], x);
            } else {
                assert(out[i] == suppressed(rest)[i - 1]);
                assert(out[j] == suppressed(rest)[j - 1]);
            }
        }
    }
}

/// Suppression keeps validity: when every input detection is valid, so is every output.
pub proof fn lemma_suppressed_valid(s: Seq<BoundingBox>)
    requires
        forall|k: int| 0 <= k < s.len() ==> is_valid_box(#[trigger] s[k]),
    ensures
        forall|j: int| 0 <= j < suppressed(s).len() ==> is_valid_box(#[trigger] suppressed(s)[j]),
{
    lemma_suppressed_members(s);
    assert forall|j: int| 0 <= j < suppressed(s).len() implies is_valid_box(
        #[trigger] suppressed(s)[j],
    ) by {
        let k = choose|k: int| 0 <= k < s.len() && s[k] == suppressed(s)[j];
    }
}

/// Index of the first detection of greatest confidence.
fn most_confident(pool: &Vec<BoundingBox>) -> (r: usize)
    requires
        pool.len() > 0,
    ensures
        r == best_index(pool@),
        r < pool.len(),
{
    let mut best: usize = 0;
    let mut k: usize = 1;
    while k < pool.len()
        invariant
            1 <= k <= pool.len(),
            best == best_index(pool@.subrange(0, k as int)),
            best < k,
        decreases pool.len() - k,
    {
        assert(pool@.subrange(0, (k + 1) as int).drop_last() =~= pool@.subrange(0, k as int));
        if pool[k].confidence > pool[best].confidence {
            best = k;
        }
        k = k + 1;
    }
    assert(pool@.subrange(0, k as int) =~= pool@);
    best
}

/// Non-maximum suppression of `boxes` (see `suppressed`).
pub fn non_max_suppression(boxes: Vec<BoundingBox>) -> (r: Vec<BoundingBox>)
    requires
        forall|k: int| 0 <= k < boxes.len() ==> within_limits(#[trigger] boxes@[k]),
    ensures
        r@ == suppressed(boxes@),
{
    let mut pool = boxes;
    let mut result: Vec<BoundingBox> = Vec::new();
    while pool.len() > 0
        invariant
            result@ + suppressed(pool@) == suppressed(boxes@),
            forall|k: int| 0 <= k < pool.len() ==> within_limits(#[trigger] pool@[k]),
        decreases pool.len(),
    {
        let i = most_confident(&pool);
        let ghost before = pool@;
        let kept = pool.remove(i);
        assert(pool@ == before.remove(i as int));
        let mut next: Vec<BoundingBox> = Vec::new();
        let mut j: usize = 0;
        while j < pool.len()
            invariant
                j <= pool.len(),
                i < before.len(),
                pool@ == before.remove(i as int),
                kept == before[i as int],
                within_limits(kept),
                forall|k: int| 0 <= k < pool.len() ==> within_limits(#[trigger] pool@[k]),
                next@ == survivors(pool@.subrange(0, j as int), kept),
                forall|k: int| 0 <= k < next.len() ==> within_limits(#[trigger] next@[k]),
            decreases pool.len() - j,
        {
            assert(pool@.subrange(0, (j + 1) as int).drop_last() =~= pool@.subrange(0, j as int));
            if !exceeds_iou_threshold(&kept, &pool[j]) {
                next.push(pool[j]);
            }
            j = j + 1;
        }
        assert(pool@.subrange(0, j as int) =~= pool@);
        proof {
            lemma_survivors(pool@, kept);
        }
        assert(suppressed(before) == seq![kept] + suppressed(next@));
        result.push(kept);
        assert(result@ + suppressed(next@) =~= (result@.drop_last() + suppressed(before)));
        pool = next;
    }
    assert(result@ + suppressed(pool@) =~= result@);
    result
}

} // verus!
