use vstd::prelude::*;

use crate::geometry::{BoundingBox, SCALE};
use crate::labels::{parse_labels, views, ColorLabel, LabelView, LabelsError, labels_of};
use crate::postprocess::{
    detections_of, postprocess, reported, shape_ok, OutputTensor, PostprocessError,
};

verus! {

/// An encoded image sent for prediction, with the caller's timestamp in milliseconds.
pub struct ImageFrame {
    pub image_data: Vec<u8>,
    pub timestamp: i64,
}

/// The detections found in a frame, most confident first, with the frame's timestamp.
pub struct PredictionBatch {
    pub detections: Vec<BoundingBox>,
    pub timestamp: i64,
}

/// Error kinds of the prediction service, as reported to remote callers.
#[derive(Clone, Copy, Debug, PartialEq, Eq, Structural)]
pub enum RpcError {
    /// The request could not be used (an image that does not decode).
    InvalidArgument,
    /// The service failed (inference, or an output it cannot read).
    Internal,
}

/// A model that finds objects in a frame.
pub trait ModelService {
    /// The detections in `frame`; a batch always carries the frame's timestamp.
    fn predict(&self, frame: ImageFrame) -> (r: Result<PredictionBatch, RpcError>)
        ensures
            r matches Ok(b) ==> b.timestamp == frame.timestamp,
    ;
}

/// The batch for a frame with timestamp `timestamp` from the model output for an
/// image of `width` by `height` pixels: the postprocessed detections, or
/// `Internal` when the output is not of shape `[1, 4 + C, N]`.
pub fn prediction_batch(
    timestamp: i64,
    output: &OutputTensor,
    width: u32,
    height: u32,
    min_probability: i64,
) -> (r: Result<PredictionBatch, RpcError>)
    ensures
        shape_ok(output.shape@, output.data@.len()) ==> (r matches Ok(b) && b.timestamp == timestamp
            && b.detections@ == detections_of(
            output.data@,
            output.shape@[2] as int,
            output.shape@[1] - 4,
            width as int,
            height as int,
            min_probability as int,
        )),
        !shape_ok(output.shape@, output.data@.len()) ==> r == Err::<PredictionBatch, RpcError>(RpcError::Internal),
        r matches Ok(b) ==> reported(b.detections@, min_probability as int),
{
    match postprocess(output, width, height, min_probability) {
        Ok(detections) => Ok(PredictionBatch { detections, timestamp }),
        Err(PostprocessError::InvalidShape) => Err(RpcError::Internal),
    }
}

/// A model that finds the same two objects in every frame.
pub struct MockModelService {}

/// The two detections the mock reports for every frame.
pub open spec fn mock_detections() -> Seq<BoundingBox> {
    seq![
        BoundingBox {
            class_id: 7,
            confidence: 950_000,
            x1: 10_000_000,
            y1: 20_000_000,
            x2: 100_000_000,
            y2: 150_000_000,
        },
        BoundingBox {
            class_id: 42,
            confidence: 880_000,
            x1: 200_000_000,
            y1: 50_000_000,
            x2: 300_000_000,
            y2: 200_000_000,
        },
    ]
}

impl ModelService for MockModelService {
    fn predict(&self, frame: ImageFrame) -> (r: Result<PredictionBatch, RpcError>)
        ensures
            r matches Ok(b) && b.detections@ == mock_detections() && b.timestamp == frame.timestamp,
    {
        let mut detections: Vec<BoundingBox> = Vec::new();
        detections.push(
            BoundingBox {
                class_id: 7,
                confidence: 950_000,
                x1: 10 * SCALE,
                y1: 20 * SCALE,
                x2: 100 * SCALE,
                y2: 150 * SCALE,
            },
        );
        detections.push(
            BoundingBox {
                class_id: 42,
                confidence: 880_000,
                x1: 200 * SCALE,
                y1: 50 * SCALE,
                x2: 300 * SCALE,
                y2: 200 * SCALE,
            },
        );
        assert(detections@ =~= mock_detections());
        Ok(PredictionBatch { detections, timestamp: frame.timestamp })
    }
}

/// The class labels the service hands out, loaded once and never changed.
pub struct ServiceState {
    pub class_labels: Vec<ColorLabel>,
}

impl ServiceState {
    /// The state for the labels file with text `text`.
    pub fn new(text: &str) -> (r: Result<ServiceState, LabelsError>)
        ensures
            match r {
                Ok(s) => labels_of(text@) == Ok::<Seq<LabelView>, LabelsError>(views(s.class_labels@)),
                Err(x) => labels_of(text@) == Err::<Seq<LabelView>, LabelsError>(x),
            },
    {
        match parse_labels(text) {
            Ok(class_labels) => Ok(ServiceState { class_labels }),
            Err(x) => Err(x),
        }
    }

    pub fn get_labels(&self) -> (r: &Vec<ColorLabel>)
        ensures
            r == &self.class_labels,
    {
        &self.class_labels
    }
}

/// The prediction service: a model and the class labels.
pub struct InferenceService<M: ModelService> {
    pub model_service: M,
    pub service_state: ServiceState,
}

impl<M: ModelService> InferenceService<M> {
    pub fn new(model_service: M, service_state: ServiceState) -> (r: InferenceService<M>)
        ensures
            r.model_service == model_service,
            r.service_state == service_state,
    {
        InferenceService { model_service, service_state }
    }

    /// Answers a prediction request: the frame goes to the model and the model's
    /// answer comes back unchanged; a batch carries the frame's timestamp.
    pub fn predict(&self, frame: ImageFrame) -> (r: Result<PredictionBatch, RpcError>)
        ensures
            call_ensures(M::predict, (&self.model_service, frame), r),
            r matches Ok(b) ==> b.timestamp == frame.timestamp,
    {
        self.model_service.predict(frame)
    }

    /// Every class label, in class-id order.
    pub fn get_yolo_class_labels(&self) -> (r: Vec<ColorLabel>)
        ensures
            views(r@) == views(self.service_state.class_labels@),
    {
        let labels = &self.service_state.class_labels;
        let mut out: Vec<ColorLabel> = Vec::new();
        let mut i: usize = 0;
        while i < labels.len()
            invariant
                i <= labels.len(),
                views(out@) == views(labels@.subrange(0, i as int)),
            decreases labels.len() - i,
        {
            let ghost before = out@;
            out.push(labels[i].duplicate());
            assert(views(out@) =~= views(before).push(labels@[i as int]@));
            assert(views(labels@.subrange(0, i + 1)) =~= views(labels@.subrange(0, i as int)).push(labels@[i as int]@));
            i = i + 1;
        }
        assert(labels@.subrange(0, i as int) =~= labels@);
        out
    }
}

/// The body of the health endpoint.
pub struct Status {
    pub status: String,
}

impl Status {
    /// The service is up.
    pub fn available() -> (r: Status)
        ensures
            r.status@ == "Available"@,
    {
        Status { status: String::from_str("Available") }
    }
}

} // verus!
