use vstd::prelude::*;

use crate::text::{lower_of, lowercase, push_decimal, decimal, same_text};

verus! {

/// Frames per second used for the stream when none is configured.
pub const DEFAULT_STREAM_FPS: u64 = 60;

/// Frames per second used for predictions when none is configured.
pub const DEFAULT_PREDICTION_FPS: u64 = 20;

/// The delay in milliseconds between two frames at `fps` frames per second:
/// 1000 / fps rounded to the nearest integer, halves away from zero. A rate
/// of zero has no finite delay and saturates to `u64::MAX`.
pub open spec fn delay_ms_of(fps: u64) -> u64 {
    if fps == 0 {
        u64::MAX
    } else {
        ((2000 + fps as int) / (2 * fps as int)) as u64
    }
}

pub fn default_stream_fps() -> (r: u64)
    ensures
        r == DEFAULT_STREAM_FPS,
{
    DEFAULT_STREAM_FPS
}

pub fn default_prediction_fps() -> (r: u64)
    ensures
        r == DEFAULT_PREDICTION_FPS,
{
    DEFAULT_PREDICTION_FPS
}

pub fn fps_to_delay_ms(fps: u64) -> (r: u64)
    ensures
        r == delay_ms_of(fps),
{
    if fps == 0 {
        u64::MAX
    } else {
        let twice: u128 = 2 * (fps as u128);
        ((2000 + fps as u128) / twice) as u64
    }
}


/// Where a server listens.
pub struct ServerConfig {
    pub host: String,
    pub port: u16,
}

impl ServerConfig {
    /// `host:port`.
    pub fn get_address(&self) -> (r: String)
        ensures
            r@ == self.host@ + ":"@ + decimal(self.port as nat),
    {
        let mut a = self.host.clone();
        a.append(":");
        push_decimal(&mut a, self.port as u64);
        a
    }
}

/// Where the prediction service is reached.
pub struct PredictionServiceConfig {
    pub host: String,
    pub port: u16,
}

impl PredictionServiceConfig {
    /// `http://host:port`.
    pub fn get_address(&self) -> (r: String)
        ensures
            r@ == "http://"@ + self.host@ + ":"@ + decimal(self.port as nat),
    {
        let mut a = String::from_str("http://");
        a.append(self.host.as_str());
        a.append(":");
        push_decimal(&mut a, self.port as u64);
        a
    }
}

/// Frame rates of the camera stream and of the predictions.
pub struct CameraConfig {
    pub stream_fps: u64,
    pub prediction_fps: u64,
}

impl CameraConfig {
    /// Both rates at their defaults.
    pub fn with_defaults() -> (r: CameraConfig)
        ensures
            r.stream_fps == DEFAULT_STREAM_FPS,
            r.prediction_fps == DEFAULT_PREDICTION_FPS,
    {
        CameraConfig { stream_fps: default_stream_fps(), prediction_fps: default_prediction_fps() }
    }

    pub fn get_prediction_delay_ms(&self) -> (r: u64)
        ensures
            r == delay_ms_of(self.prediction_fps),
    {
        fps_to_delay_ms(self.prediction_fps)
    }

    pub fn get_stream_delay_ms(&self) -> (r: u64)
        ensures
            r == delay_ms_of(self.stream_fps),
    {
        fps_to_delay_ms(self.stream_fps)
    }
}

/// The deployment environment, which selects a configuration file.
#[derive(Clone, Copy, Debug, PartialEq, Eq, Structural)]
pub enum Environment {
    Local,
    Production,
}

/// The name of an environment.
pub open spec fn environment_name(e: Environment) -> Seq<char> {
    match e {
        Environment::Local => "local"@,
        Environment::Production => "production"@,
    }
}

/// The environment named by an already lowercased `l`, or the error message.
pub open spec fn environment_of(l: Seq<char>) -> Result<Environment, Seq<char>> {
    if l == "local"@ {
        Ok(Environment::Local)
    } else if l == "production"@ {
        Ok(Environment::Production)
    } else {
        Err(l + " is not a supported environment. Use either `local` or `production`."@)
    }
}

impl Environment {
    pub fn as_str(&self) -> (r: &'static str)
        ensures
            r@ == environment_name(*self),
    {
        match self {
            Environment::Local => "local",
            Environment::Production => "production",
        }
    }

    /// The environment named by `l`, which is already lowercase.
    pub fn from_lowercase(l: &str) -> (r: Result<Environment, String>)
        ensures
            match r {
                Ok(e) => environment_of(l@) == Ok::<Environment, Seq<char>>(e),
                Err(m) => environment_of(l@) == Err::<Environment, Seq<char>>(m@),
            },
    {
        if same_text(l, "local") {
            Ok(Environment::Local)
        } else if same_text(l, "production") {
            Ok(Environment::Production)
        } else {
            let mut m = String::from_str(l);
            m.append(" is not a supported environment. Use either `local` or `production`.");
            Err(m)
        }
    }

    /// The environment named by `s`, in any letter case.
    pub fn try_from(s: String) -> (r: Result<Environment, String>)
        ensures
            match r {
                Ok(e) => environment_of(lower_of(s@)) == Ok::<Environment, Seq<char>>(e),
                Err(m) => environment_of(lower_of(s@)) == Err::<Environment, Seq<char>>(m@),
            },
    {
        let l = lowercase(s.as_str());
        Environment::from_lowercase(l.as_str())
    }
}

/// The minimum level of the logs.
#[derive(Clone, Copy, Debug, PartialEq, Eq, Structural)]
pub enum LogLevel {
    Debug,
    Info,
}

/// The name of a log level.
pub open spec fn log_level_name(l: LogLevel) -> Seq<char> {
    match l {
        LogLevel::Debug => "debug"@,
        LogLevel::Info => "info"@,
    }
}

/// The log level named by an already lowercased `l`, or the error message.
pub open spec fn log_level_of(l: Seq<char>) -> Result<LogLevel, Seq<char>> {
    if l == "debug"@ {
        Ok(LogLevel::Debug)
    } else if l == "info"@ {
        Ok(LogLevel::Info)
    } else {
        Err(l + " is not a supported minimum log level. Use either `debug` or `info`."@)
    }
}

impl LogLevel {
    pub fn as_str(&self) -> (r: &'static str)
        ensures
            r@ == log_level_name(*self),
    {
        match self {
            LogLevel::Debug => "debug",
            LogLevel::Info => "info",
        }
    }

    /// The log level named by `l`, which is already lowercase.
    pub fn from_lowercase(l: &str) -> (r: Result<LogLevel, String>)
        ensures
            match r {
                Ok(v) => log_level_of(l@) == Ok::<LogLevel, Seq<char>>(v),
                Err(m) => log_level_of(l@) == Err::<LogLevel, Seq<char>>(m@),
            },
    {
        if same_text(l, "debug") {
            Ok(LogLevel::Debug)
        } else if same_text(l, "info") {
            Ok(LogLevel::Info)
        } else {
            let mut m = String::from_str(l);
            m.append(" is not a supported minimum log level. Use either `debug` or `info`.");
            Err(m)
        }
    }

    /// The log level named by `s`, in any letter case.
    pub fn try_from(s: String) -> (r: Result<LogLevel, String>)
        ensures
            match r {
                Ok(v) => log_level_of(lower_of(s@)) == Ok::<LogLevel, Seq<char>>(v),
                Err(m) => log_level_of(lower_of(s@)) == Err::<LogLevel, Seq<char>>(m@),
            },
    {
        let l = lowercase(s.as_str());
        LogLevel::from_lowercase(l.as_str())
    }
}

/// `file` taken relative to the directory `dir`, as `Path::join` does on Unix:
/// an absolute `file` stands alone, and a separator is added when `dir` lacks one.
pub open spec fn joined_path(dir: Seq<char>, file: Seq<char>) -> Seq<char> {
    if file.len() > 0 && file[0] == '/' {
        file
    } else if dir.len() == 0 || dir.last() == '/' {
        dir + file
    } else {
        dir + "/"@ + file
    }
}

fn join_path(dir: &String, file: &String) -> (r: String)
    ensures
        r@ == joined_path(dir@, file@),
{
    proof {
        reveal_strlit("/");
    }
    let d = dir.as_str();
    let f = file.as_str();
    let fl = f.unicode_len();
    if fl > 0 && f.get_char(0) == '/' {
        return file.clone();
    }
    let dl = d.unicode_len();
    let mut r = dir.clone();
    assert(d@ == dir@ && f@ == file@);
    if dl == 0 || d.get_char(dl - 1) == '/' {
        r.append(f);
    } else {
        r.append("/");
        r.append(f);
        assert(!(dir@.len() == 0 || dir@.last() == '/'));
    }
    r
}

/// A configuration that names a file which must exist at start-up.
pub trait Validatable {
    spec fn path_view(&self) -> Seq<char>;

    /// The path of the file.
    fn get_path(&self) -> (r: String)
        ensures
            r@ == self.path_view(),
    ;
}

/// Minimum confidence given to the model when none is configured (0.50).
pub fn default_min_probability() -> (r: i64)
    ensures
        r == crate::postprocess::DEFAULT_MIN_PROBABILITY,
{
    crate::postprocess::DEFAULT_MIN_PROBABILITY
}

/// The model file and how to run it.
pub struct ModelConfig {
    pub onnx_file: String,
    pub num_instances: usize,
    pub model_dir: String,
    /// Minimum confidence of a reported detection, in millionths.
    pub min_probability: i64,
}

impl Validatable for ModelConfig {
    open spec fn path_view(&self) -> Seq<char> {
        joined_path(self.model_dir@, self.onnx_file@)
    }

    fn get_path(&self) -> (r: String) {
        join_path(&self.model_dir, &self.onnx_file)
    }
}

/// The labels file.
pub struct LabelsConfig {
    pub labels_file: String,
    pub labels_dir: String,
}

impl Validatable for LabelsConfig {
    open spec fn path_view(&self) -> Seq<char> {
        joined_path(self.labels_dir@, self.labels_file@)
    }

    fn get_path(&self) -> (r: String) {
        join_path(&self.labels_dir, &self.labels_file)
    }
}

} // verus!
