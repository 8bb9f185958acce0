use vstd::prelude::*;

verus! {

/// Errors surfaced by the engine's fallible operations.
///
/// Configuration problems (missing provider settings, malformed replacement
/// patterns) abort the current step; API failures carry the status and body
/// returned by the external completion service.
#[derive(Debug, Clone, PartialEq, Eq)]
pub enum WhisperCatError {
    RecordingError(String),
    ApiError { status: u16, message: String },
    FileSizeError { size_bytes: u64 },
    ConfigError(String),
    AudioProcessingError(String),
    PipelineError(String),
}

} // verus!
