use yolo_pipeline::geometry::SCALE;
use yolo_pipeline::postprocess::OutputTensor;
use yolo_pipeline::service::{
    prediction_batch, ImageFrame, InferenceService, MockModelService, ModelService, RpcError,
    ServiceState, Status,
};

#[test]
fn inference_service_test_predict() {
    let mock_model = MockModelService {};
    let mock_state = ServiceState::new("class1,255,0,0\nclass2,255,0,0\nclass3,255,0,0").unwrap();
    let inference_service = InferenceService::new(mock_model, mock_state);

    let image_frame = ImageFrame { image_data: vec![0; 100], timestamp: 12345 };

    let batch = inference_service.predict(image_frame).unwrap();
    assert_eq!(batch.detections.len(), 2);
    assert_eq!(batch.detections[0].class_id, 7);
    assert_eq!(batch.detections[1].class_id, 42);
    assert_eq!(batch.timestamp, 12345);
}

#[test]
fn class_labels_are_served_in_order() {
    let state = ServiceState::new("person,1,2,3\nbicycle,4,5,6").unwrap();
    let service = InferenceService::new(MockModelService {}, state);
    let labels = service.get_yolo_class_labels();
    assert_eq!(labels.len(), 2);
    assert_eq!(labels[0].label, "person");
    assert_eq!((labels[1].red, labels[1].green, labels[1].blue), (4, 5, 6));
}

#[test]
fn mock_echoes_the_timestamp() {
    let b = MockModelService {}.predict(ImageFrame { image_data: vec![], timestamp: -7 }).unwrap();
    assert_eq!(b.timestamp, -7);
    assert_eq!(b.detections[0].confidence, 950_000);
    assert_eq!(b.detections.len(), 2);
    assert_eq!(b.detections[1].x2, 300 * SCALE);
    assert_eq!(b.detections[1].confidence, 880_000);
}

#[test]
fn batch_echoes_timestamp_and_reports_bad_output() {
    let empty = OutputTensor { shape: vec![1, 84, 0], data: vec![] };
    let b = prediction_batch(1_700_000_000_123, &empty, 100, 100, 500_000).unwrap();
    assert_eq!(b.timestamp, 1_700_000_000_123);
    assert!(b.detections.is_empty());
    let bad = OutputTensor { shape: vec![1, 84], data: vec![] };
    assert!(matches!(prediction_batch(1, &bad, 100, 100, 500_000), Err(RpcError::Internal)));
}

#[test]
fn health_status_is_available() {
    assert_eq!(Status::available().status, "Available");
}
