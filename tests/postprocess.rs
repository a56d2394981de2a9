use yolo_pipeline::geometry::{exceeds_iou_threshold, BoundingBox, SCALE};
use yolo_pipeline::nms::non_max_suppression;
use yolo_pipeline::postprocess::{
    decode_detections, postprocess, OutputTensor, PostprocessError, DEFAULT_MIN_PROBABILITY,
};

fn px(v: f64) -> i32 {
    (v * SCALE as f64) as i32
}

/// A `[1, 4 + classes, anchors.len()]` tensor from per-anchor `(xc, yc, w, h, scores)`.
fn tensor(classes: usize, anchors: &[(f64, f64, f64, f64, Vec<f64>)]) -> OutputTensor {
    let n = anchors.len();
    let mut data = vec![0i32; (4 + classes) * n];
    for (a, (xc, yc, w, h, scores)) in anchors.iter().enumerate() {
        data[a] = px(*xc);
        data[n + a] = px(*yc);
        data[2 * n + a] = px(*w);
        data[3 * n + a] = px(*h);
        for c in 0..classes {
            data[(4 + c) * n + a] = px(scores[c]);
        }
    }
    OutputTensor { shape: vec![1, 4 + classes, n], data }
}

fn bbox(class_id: u32, confidence: i64, x1: i64, y1: i64, x2: i64, y2: i64) -> BoundingBox {
    BoundingBox { class_id, confidence, x1: x1 * SCALE, y1: y1 * SCALE, x2: x2 * SCALE, y2: y2 * SCALE }
}

#[test]
fn nms_collapses_two_overlapping_boxes() {
    let t = tensor(
        1,
        &[(50.0, 50.0, 100.0, 100.0, vec![0.9]), (50.0, 50.0, 90.0, 90.0, vec![0.8])],
    );
    let r = postprocess(&t, 640, 640, DEFAULT_MIN_PROBABILITY).unwrap();
    assert_eq!(r.len(), 1);
    assert_eq!(r[0], bbox(0, 900_000, 0, 0, 100, 100));
}

#[test]
fn decode_scales_to_the_original_image() {
    // centre (320, 320), size (64, 128) in model space; image 1280 x 320
    let t = tensor(2, &[(320.0, 320.0, 64.0, 128.0, vec![0.2, 0.75])]);
    let r = decode_detections(&t.data, 1, 2, 1280, 320, DEFAULT_MIN_PROBABILITY);
    assert_eq!(r, vec![bbox(1, 750_000, 576, 128, 704, 192)]);
}

#[test]
fn confidence_threshold_keeps_equal_and_drops_lower() {
    let t = tensor(
        1,
        &[(10.0, 10.0, 4.0, 4.0, vec![0.5]), (100.0, 100.0, 4.0, 4.0, vec![0.499999])],
    );
    let r = postprocess(&t, 640, 640, DEFAULT_MIN_PROBABILITY).unwrap();
    assert_eq!(r.len(), 1);
    assert_eq!(r[0].confidence, 500_000);
}

#[test]
fn argmax_takes_the_first_of_equal_scores() {
    let t = tensor(3, &[(10.0, 10.0, 4.0, 4.0, vec![0.6, 0.9, 0.9])]);
    let r = postprocess(&t, 640, 640, DEFAULT_MIN_PROBABILITY).unwrap();
    assert_eq!(r[0].class_id, 1);
}

#[test]
fn every_anchor_is_decoded() {
    let anchors: Vec<_> = (0..8)
        .map(|i| (40.0 + 70.0 * i as f64, 40.0, 20.0, 20.0, vec![0.55 + 0.05 * i as f64]))
        .collect();
    let r = postprocess(&tensor(1, &anchors), 640, 640, DEFAULT_MIN_PROBABILITY).unwrap();
    assert_eq!(r.len(), 8);
}

#[test]
fn output_is_valid_ordered_and_not_overlapping() {
    let mut anchors = Vec::new();
    for i in 0..40u32 {
        let f = i as f64;
        anchors.push((
            (f * 37.0) % 600.0 + 20.0,
            (f * 53.0) % 600.0 + 20.0,
            30.0 + (f * 7.0) % 90.0,
            25.0 + (f * 11.0) % 80.0,
            vec![(f * 0.013) % 1.0, ((f * 0.029) + 0.3) % 1.0],
        ));
    }
    let t = tensor(2, &anchors);
    let r = postprocess(&t, 800, 600, 100_000).unwrap();
    assert!(!r.is_empty());
    for d in &r {
        assert!(0 <= d.confidence && d.confidence <= SCALE);
        assert!(d.x1 <= d.x2 && d.y1 <= d.y2);
    }
    for i in 0..r.len() {
        for j in 0..r.len() {
            if i < j {
                assert!(r[i].confidence >= r[j].confidence);
            }
            if i != j {
                assert!(!exceeds_iou_threshold(&r[i], &r[j]));
            }
        }
    }
}

#[test]
fn wrong_shapes_are_refused() {
    let ok = tensor(1, &[(1.0, 1.0, 1.0, 1.0, vec![0.9])]);
    let bad = [
        OutputTensor { shape: vec![1, 5], data: ok.data.clone() },
        OutputTensor { shape: vec![2, 5, 1], data: ok.data.clone() },
        OutputTensor { shape: vec![1, 4, 1], data: vec![0; 4] },
        OutputTensor { shape: vec![1, 5, 2], data: ok.data.clone() },
    ];
    for t in &bad {
        assert_eq!(postprocess(t, 640, 640, 0), Err(PostprocessError::InvalidShape));
    }
    assert!(postprocess(&ok, 640, 640, 0).is_ok());
}

#[test]
fn empty_output_gives_no_detection() {
    let t = OutputTensor { shape: vec![1, 84, 0], data: vec![] };
    assert_eq!(postprocess(&t, 640, 480, 0), Ok(vec![]));
}

#[test]
fn iou_threshold_is_strict() {
    // identical boxes: IoU 1
    let a = bbox(0, 1, 0, 0, 10, 10);
    assert!(exceeds_iou_threshold(&a, &a));
    // IoU exactly 0.7: [0,10]x[0,7] inside [0,10]x[0,10] gives 70 / 100
    let b = bbox(0, 1, 0, 0, 10, 7);
    assert!(!exceeds_iou_threshold(&a, &b));
    // slightly more than 0.7
    let c = bbox(0, 1, 0, 0, 10, 8);
    assert!(exceeds_iou_threshold(&a, &c));
    // disjoint boxes: negative overlap is clamped to zero
    let d = bbox(0, 1, 20, 20, 30, 30);
    assert!(!exceeds_iou_threshold(&a, &d));
    // empty boxes never overlap
    let e = bbox(0, 1, 5, 5, 5, 5);
    assert!(!exceeds_iou_threshold(&e, &e));
}

#[test]
fn nms_keeps_the_first_of_equal_confidences_and_separate_boxes() {
    let boxes = vec![
        bbox(0, 500, 0, 0, 10, 10),
        bbox(1, 700, 100, 100, 110, 110),
        bbox(2, 700, 0, 0, 10, 10),
        bbox(3, 600, 200, 200, 210, 210),
    ];
    let r = non_max_suppression(boxes);
    let ids: Vec<u32> = r.iter().map(|b| b.class_id).collect();
    assert_eq!(ids, vec![1, 2, 3]);
}

#[test]
fn anchors_that_cannot_give_a_valid_box_are_dropped() {
    let t = tensor(
        1,
        &[
            (10.0, 10.0, 4.0, 4.0, vec![1.5]),
            (100.0, 100.0, -4.0, 4.0, vec![0.9]),
            (200.0, 200.0, 4.0, -1.0, vec![0.9]),
            (300.0, 300.0, 4.0, 4.0, vec![1.0]),
        ],
    );
    let r = postprocess(&t, 640, 640, DEFAULT_MIN_PROBABILITY).unwrap();
    assert_eq!(r, vec![bbox(0, 1_000_000, 298, 298, 302, 302)]);
}
