use yolo_pipeline::annotate::{box_label, draw_box};
use yolo_pipeline::geometry::SCALE;
use yolo_pipeline::labels::BoundingBoxWithLabels;

fn labeled(x1: i64, y1: i64, x2: i64, y2: i64, confidence: i64) -> BoundingBoxWithLabels {
    BoundingBoxWithLabels {
        x1: x1 * SCALE,
        y1: y1 * SCALE,
        x2: x2 * SCALE,
        y2: y2 * SCALE,
        class_label: "person".to_string(),
        red: 255,
        green: 300,
        blue: 7,
        confidence,
    }
}

#[test]
fn labels_carry_two_decimals() {
    assert_eq!(box_label(&labeled(0, 0, 1, 1, 950_000)), "person: 0.95");
    assert_eq!(box_label(&labeled(0, 0, 1, 1, 1_000_000)), "person: 1.00");
    assert_eq!(box_label(&labeled(0, 0, 1, 1, 884_999)), "person: 0.88");
    assert_eq!(box_label(&labeled(0, 0, 1, 1, 885_000)), "person: 0.89");
    assert_eq!(box_label(&labeled(0, 0, 1, 1, 4_999)), "person: 0.00");
    assert_eq!(box_label(&labeled(0, 0, 1, 1, -500_000)), "person: -0.50");
}

#[test]
fn box_border_is_two_pixels_in_label_colour() {
    let (w, h) = (10u32, 8u32);
    let mut buf = vec![1u8; (3 * w * h) as usize];
    draw_box(&mut buf, w, h, &labeled(2, 1, 7, 6, 900_000));
    let at = |x: u32, y: u32| {
        let i = (3 * (y * w + x)) as usize;
        (buf[i], buf[i + 1], buf[i + 2])
    };
    let colour = (255, 255, 7);
    for y in 0..h {
        for x in 0..w {
            let inside = (2..=7).contains(&x) && (1..=6).contains(&y);
            let border = inside && (x < 4 || x > 5 || y < 3 || y > 4);
            assert_eq!(at(x, y), if border { colour } else { (1, 1, 1) }, "pixel ({}, {})", x, y);
        }
    }
}

#[test]
fn boxes_outside_the_image_are_clipped() {
    let (w, h) = (4u32, 4u32);
    let mut buf = vec![0u8; (3 * w * h) as usize];
    draw_box(&mut buf, w, h, &labeled(-10, -10, 1, 100, 1));
    assert_eq!(&buf[0..3], &[255, 255, 7]);
    assert_eq!(&buf[6..9], &[0, 0, 0]);
    let mut empty: Vec<u8> = vec![];
    draw_box(&mut empty, 0, 5, &labeled(0, 0, 1, 1, 1));
    assert!(empty.is_empty());
}
