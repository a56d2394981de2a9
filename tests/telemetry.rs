use yolo_pipeline::telemetry::generate_boundaries;

#[test]
fn test_generate_boundaries() {
    let parts = (2, 22, 26, 46, 146);
    let get: Vec<f64> = generate_boundaries(parts).into_iter().map(|x| x as f64).collect();
    let expected = vec![2.0, 12.0, 22.0, 24.0, 26.0, 46.0, 146.0];

    assert_eq!(get, expected);
}

#[test]
fn default_histogram_boundaries() {
    let b = generate_boundaries((15, 30, 60, 500, 1000));
    assert_eq!(&b[..4], &[15, 25, 30, 32]);
    assert!(b.contains(&60));
    assert!(b.contains(&80));
    assert!(b.contains(&500));
    assert!(b.contains(&600));
    assert_eq!(*b.last().unwrap(), 1000);
    let mut sorted = b.clone();
    sorted.sort();
    sorted.dedup();
    assert_eq!(sorted, b);
    // 15, 25 | 30..=60 by 2 (16 values) | 80..=500 by 20 (22 values) | 600..=1000 by 100 (5 values)
    assert_eq!(b.len(), 2 + 16 + 22 + 5);
}

#[test]
fn empty_progressions_are_skipped() {
    assert_eq!(generate_boundaries((10, 5, 5, 5, 5)), vec![5]);
    assert_eq!(generate_boundaries((3, 1, 0, -1, -2)), Vec::<i32>::new());
}
