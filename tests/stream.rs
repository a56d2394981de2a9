use yolo_pipeline::labels::BoundingBoxWithLabels;
use yolo_pipeline::stream::{frame_part, DetectionSnapshot};

fn read_part(buf: &[u8]) -> (Vec<u8>, usize) {
    let prefix = b"--frame\r\nContent-Type: image/jpeg\r\nContent-Length: ";
    assert!(buf.starts_with(prefix));
    let rest = &buf[prefix.len()..];
    let end = rest.windows(4).position(|w| w == b"\r\n\r\n").unwrap();
    let n: usize = std::str::from_utf8(&rest[..end]).unwrap().parse().unwrap();
    let body = &rest[end + 4..end + 4 + n];
    assert_eq!(&rest[end + 4 + n..end + 6 + n], b"\r\n");
    (body.to_vec(), prefix.len() + end + 6 + n)
}

#[test]
fn video_stream_parts_are_framed() {
    let a: Vec<u8> = vec![0xff, 0xd8, 1, 2, 3, 0xff, 0xd9];
    let b: Vec<u8> = (0..1234u32).map(|i| (i % 251) as u8).collect();
    let mut stream = frame_part(&a);
    stream.extend(frame_part(&b));
    let (p1, used) = read_part(&stream);
    assert_eq!(p1, a);
    let (p2, used2) = read_part(&stream[used..]);
    assert_eq!(p2, b);
    assert_eq!(used + used2, stream.len());
}

#[test]
fn empty_image_part() {
    assert_eq!(
        frame_part(&vec![]),
        b"--frame\r\nContent-Type: image/jpeg\r\nContent-Length: 0\r\n\r\n\r\n".to_vec()
    );
}

fn labeled(label: &str) -> BoundingBoxWithLabels {
    BoundingBoxWithLabels {
        x1: 1,
        y1: 2,
        x2: 3,
        y2: 4,
        class_label: label.to_string(),
        red: 5,
        green: 6,
        blue: 7,
        confidence: 8,
    }
}

#[test]
fn snapshot_versions_count_replacements() {
    let mut s = DetectionSnapshot::new();
    assert_eq!(s.version, 0);
    assert!(s.read().is_empty());
    s.replace(vec![labeled("a"), labeled("b")]);
    s.replace(vec![labeled("c")]);
    assert_eq!(s.version, 2);
    let r = s.read();
    assert_eq!(r.len(), 1);
    assert_eq!(r[0].class_label, "c");
    assert_eq!((r[0].x1, r[0].blue, r[0].confidence), (1, 7, 8));
}
