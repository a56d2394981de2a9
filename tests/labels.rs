use yolo_pipeline::geometry::{BoundingBox, SCALE};
use yolo_pipeline::labels::{join_labels, parse_labels, ColorLabel, LabelsError};
use yolo_pipeline::service::ServiceState;

#[test]
fn parses_labels_with_spaces_and_crlf() {
    let v = parse_labels("person, 255, 0 ,0\r\n  bicycle ,0,255,+7\ncar,1,2,3").unwrap();
    assert_eq!(v.len(), 3);
    assert_eq!(v[0].label, "person");
    assert_eq!((v[0].red, v[0].green, v[0].blue), (255, 0, 0));
    assert_eq!(v[1].label, "bicycle");
    assert_eq!((v[1].red, v[1].green, v[1].blue), (0, 255, 7));
    assert_eq!(v[2].label, "car");
    assert_eq!((v[2].red, v[2].green, v[2].blue), (1, 2, 3));
}

#[test]
fn trailing_newline_adds_no_line() {
    assert_eq!(parse_labels("a,1,2,3\n").unwrap().len(), 1);
    assert_eq!(parse_labels("").unwrap().len(), 0);
}

#[test]
fn label_errors_name_the_line() {
    assert_eq!(parse_labels("a,1,2,3\n\n").err(), Some(LabelsError::InvalidLineFormat(1)));
    assert_eq!(parse_labels("a,1,2").err(), Some(LabelsError::InvalidLineFormat(0)));
    assert_eq!(parse_labels("a,1,2,3,4").err(), Some(LabelsError::InvalidLineFormat(0)));
    assert_eq!(parse_labels("a,x,2,3").err(), Some(LabelsError::InvalidRed(0)));
    assert_eq!(parse_labels("a,1,2,3\nb,1,-2,3").err(), Some(LabelsError::InvalidGreen(1)));
    assert_eq!(parse_labels("a,1,2,4294967296").err(), Some(LabelsError::InvalidBlue(0)));
    assert_eq!(parse_labels("a,1,2,").err(), Some(LabelsError::InvalidBlue(0)));
    assert_eq!(parse_labels("a,1,2,4294967295").unwrap()[0].blue, u32::MAX);
}

#[test]
fn service_state_keeps_labels_in_order() {
    let s = ServiceState::new("x,1,1,1\ny,2,2,2").unwrap();
    let l = s.get_labels();
    assert_eq!(l.len(), 2);
    assert_eq!(l[1].label, "y");
    assert!(ServiceState::new("x,1,1").is_err());
}

fn det(class_id: u32) -> BoundingBox {
    BoundingBox { class_id, confidence: 930_000, x1: SCALE, y1: 2 * SCALE, x2: 3 * SCALE, y2: 4 * SCALE }
}

#[test]
fn unknown_class_is_black_and_named_by_id() {
    let labels = vec![ColorLabel { label: "person".to_string(), red: 255, green: 10, blue: 20 }];
    let r = join_labels(&vec![det(9999)], &labels);
    assert_eq!(r.len(), 1);
    assert_eq!(r[0].class_label, "Unknown class 9999");
    assert_eq!((r[0].red, r[0].green, r[0].blue), (0, 0, 0));
    assert_eq!(r[0].confidence, 930_000);
    assert_eq!((r[0].x1, r[0].y1, r[0].x2, r[0].y2), (SCALE, 2 * SCALE, 3 * SCALE, 4 * SCALE));
}

#[test]
fn known_class_takes_label_and_colour() {
    let labels = vec![
        ColorLabel { label: "person".to_string(), red: 255, green: 10, blue: 20 },
        ColorLabel { label: "bicycle".to_string(), red: 1, green: 2, blue: 3 },
    ];
    let r = join_labels(&vec![det(1), det(0), det(2)], &labels);
    assert_eq!(r[0].class_label, "bicycle");
    assert_eq!((r[0].red, r[0].green, r[0].blue), (1, 2, 3));
    assert_eq!(r[1].class_label, "person");
    assert_eq!(r[2].class_label, "Unknown class 2");
}
