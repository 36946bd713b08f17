//! Audio I/O configuration: stream settings, device descriptions and errors.

use vstd::prelude::*;

verus! {

/// Settings of an output stream.
#[derive(Debug, Clone)]
pub struct StreamConfig {
    pub sample_rate: u32,
    pub channels: usize,
    pub block_size: usize,
}

impl Default for StreamConfig {
    /// 48 kHz stereo in blocks of 256 frames.
    fn default() -> (c: Self)
        ensures
            c.sample_rate == 48_000,
            c.channels == 2,
            c.block_size == 256,
    {
        StreamConfig { sample_rate: 48_000, channels: 2, block_size: 256 }
    }
}

/// Identifier of an audio device.
#[derive(Debug, Clone)]
pub struct DeviceId(pub String);

/// Description of an audio device.
#[derive(Debug, Clone)]
pub struct DeviceInfo {
    pub id: DeviceId,
    pub name: String,
    pub is_default_output: bool,
    pub is_default_input: bool,
}

/// Failures of an audio backend.
#[derive(Debug)]
pub enum BackendError {
    DeviceNotFound(String),
    UnsupportedConfiguration,
    Backend(String),
}

/// The message describing an error.
pub open spec fn backend_error_message(e: BackendError) -> Seq<char> {
    match e {
        BackendError::DeviceNotFound(d) => "device not found: "@ + d@,
        BackendError::UnsupportedConfiguration => "stream configuration unsupported"@,
        BackendError::Backend(m) => "backend error: "@ + m@,
    }
}

impl BackendError {
    /// The message describing this error.
    pub fn message(&self) -> (m: String)
        ensures
            m@ == backend_error_message(*self),
    {
        match self {
            BackendError::DeviceNotFound(d) => {
                let mut m = String::from_str("device not found: ");
                m.append(d.as_str());
                m
            },
            BackendError::UnsupportedConfiguration => String::from_str("stream configuration unsupported"),
            BackendError::Backend(detail) => {
                let mut m = String::from_str("backend error: ");
                m.append(detail.as_str());
                m
            },
        }
    }
}

/// The audio backend of builds without hardware access: it lists no device and
/// has no default output.
#[derive(Debug, Clone, Copy, Default)]
pub struct CpalBackend;

/// The reason the stand-in backend gives for having no output.
pub open spec fn unavailable_message() -> Seq<char> {
    "cpal backend not available in this build"@
}

impl CpalBackend {
    /// The backend.
    pub fn new() -> (b: Self) {
        CpalBackend
    }
}

impl AudioBackend for CpalBackend {
    /// The backend's name.
    fn name(&self) -> (n: &'static str)
        ensures
            n@ == "cpal (stub)"@,
    {
        "cpal (stub)"
    }

    /// The devices the backend can open: none.
    fn devices(&self) -> (r: Result<Vec<DeviceInfo>, BackendError>)
        ensures
            r matches Ok(d) && d@.len() == 0,
    {
        Ok(Vec::new())
    }

    /// The default output device: there is none, so always an error.
    fn default_output(&self) -> (r: Result<DeviceId, BackendError>)
        ensures
            r matches Err(BackendError::Backend(m)) && m@ == unavailable_message(),
    {
        Err(BackendError::Backend(String::from_str("cpal backend not available in this build")))
    }
}

/// An audio backend: its name, the devices it can open and its default output.
/// Opening a stream hands the engine's callback to the backend and stays with the
/// engine.
pub trait AudioBackend: Send + Sync {
    fn name(&self) -> &'static str;

    fn devices(&self) -> Result<Vec<DeviceInfo>, BackendError>;

    fn default_output(&self) -> Result<DeviceId, BackendError>;
}

/// An open audio stream that can be started and stopped.
pub trait AudioStream: Send + Sync {
    fn start(&self) -> Result<(), BackendError>;

    fn stop(&self) -> Result<(), BackendError>;
}

} // verus!
