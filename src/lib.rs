//! Detection pipeline core: decoding of YOLO model output, confidence filtering
//! and non-maximum suppression, the class-label store and join, retry and
//! backoff decisions, round-robin session dispatch, MJPEG stream framing,
//! histogram boundaries and configuration values.
//!
//! Confidences and coordinates are fixed-point integers in millionths (see
//! `geometry::SCALE`).

pub mod annotate;
pub mod backoff;
pub mod config;
pub mod geometry;
pub mod labels;
pub mod nms;
pub mod pool;
pub mod postprocess;
pub mod service;
pub mod stream;
pub mod telemetry;
pub mod text;
