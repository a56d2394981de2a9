use yolo_pipeline::config::{
    default_min_probability, default_prediction_fps, default_stream_fps, fps_to_delay_ms,
    CameraConfig, Environment, LabelsConfig, LogLevel, ModelConfig, PredictionServiceConfig,
    ServerConfig, Validatable,
};
use yolo_pipeline::text::decimal_string;

#[test]
fn addresses() {
    let s = ServerConfig { host: "0.0.0.0".to_string(), port: 50051 };
    assert_eq!(s.get_address(), "0.0.0.0:50051");
    let p = PredictionServiceConfig { host: "localhost".to_string(), port: 8 };
    assert_eq!(p.get_address(), "http://localhost:8");
}

#[test]
fn delays_round_to_nearest_millisecond() {
    assert_eq!(fps_to_delay_ms(60), 17);
    assert_eq!(fps_to_delay_ms(20), 50);
    assert_eq!(fps_to_delay_ms(16), 63);
    assert_eq!(fps_to_delay_ms(3), 333);
    assert_eq!(fps_to_delay_ms(2001), 0);
    assert_eq!(fps_to_delay_ms(2000), 1);
    assert_eq!(fps_to_delay_ms(0), u64::MAX);
    assert_eq!(fps_to_delay_ms(u64::MAX), 0);
    let c = CameraConfig::with_defaults();
    assert_eq!((c.stream_fps, c.prediction_fps), (default_stream_fps(), default_prediction_fps()));
    assert_eq!(c.get_stream_delay_ms(), 17);
    assert_eq!(c.get_prediction_delay_ms(), 50);
    assert_eq!(default_min_probability(), 500_000);
}

#[test]
fn environments_and_log_levels() {
    assert_eq!(Environment::try_from("LoCaL".to_string()), Ok(Environment::Local));
    assert_eq!(Environment::try_from("production".to_string()), Ok(Environment::Production));
    assert_eq!(
        Environment::try_from("Staging".to_string()),
        Err("staging is not a supported environment. Use either `local` or `production`.".to_string())
    );
    assert_eq!(Environment::Production.as_str(), "production");
    assert_eq!(LogLevel::try_from("INFO".to_string()), Ok(LogLevel::Info));
    assert_eq!(LogLevel::try_from("debug".to_string()), Ok(LogLevel::Debug));
    assert_eq!(
        LogLevel::try_from("Trace".to_string()),
        Err("trace is not a supported minimum log level. Use either `debug` or `info`.".to_string())
    );
    assert_eq!(LogLevel::Debug.as_str(), "debug");
}

#[test]
fn paths_join_like_path_join() {
    let m = ModelConfig {
        onnx_file: "yolov8m.onnx".to_string(),
        num_instances: 2,
        model_dir: "./models".to_string(),
        min_probability: 500_000,
    };
    assert_eq!(m.get_path(), "./models/yolov8m.onnx");
    let l = LabelsConfig { labels_file: "labels.txt".to_string(), labels_dir: "dir/".to_string() };
    assert_eq!(l.get_path(), "dir/labels.txt");
    let a = LabelsConfig { labels_file: "/etc/labels.txt".to_string(), labels_dir: "dir".to_string() };
    assert_eq!(a.get_path(), "/etc/labels.txt");
    let e = LabelsConfig { labels_file: "l.txt".to_string(), labels_dir: String::new() };
    assert_eq!(e.get_path(), "l.txt");
}

#[test]
fn decimal_strings() {
    assert_eq!(decimal_string(0), "0");
    assert_eq!(decimal_string(9999), "9999");
    assert_eq!(decimal_string(u64::MAX), u64::MAX.to_string());
}
