use vstd::prelude::*;

verus! {

/// Errors that can occur while building or running a pipeline.
#[derive(Debug)]
pub enum PipelineError {
    /// Pipeline has already been started
    AlreadyStarted,
    /// No stages in pipeline
    NoStages,
    /// Stage execution error
    StageError(String),
    /// Thread join error
    ThreadError(String),
    /// Configuration error
    ConfigError(String),
    /// Shutdown error
    ShutdownError(String),
}

/// Result type for stream pipeline operations.
pub type Result<T> = core::result::Result<T, PipelineError>;

impl PipelineError {
    /// The human-readable message of the error, as a sequence of characters.
    pub open spec fn message_spec(&self) -> Seq<char> {
        match self {
            PipelineError::AlreadyStarted => "Pipeline has already been started"@,
            PipelineError::NoStages => "Cannot start pipeline with no stages"@,
            PipelineError::StageError(m) => "Stage execution failed: "@ + m@,
            PipelineError::ThreadError(m) => "Thread join error: "@ + m@,
            PipelineError::ConfigError(m) => "Configuration error: "@ + m@,
            PipelineError::ShutdownError(m) => "Pipeline shutdown error: "@ + m@,
        }
    }

    /// Formats the error as a human-readable message.
    pub fn message(&self) -> (s: String)
        ensures
            s@ == self.message_spec(),
    {
        match self {
            PipelineError::AlreadyStarted => String::from_str("Pipeline has already been started"),
            PipelineError::NoStages => String::from_str("Cannot start pipeline with no stages"),
            PipelineError::StageError(m) => String::from_str("Stage execution failed: ").concat(
                m.as_str(),
            ),
            PipelineError::ThreadError(m) => String::from_str("Thread join error: ").concat(
                m.as_str(),
            ),
            PipelineError::ConfigError(m) => String::from_str("Configuration error: ").concat(
                m.as_str(),
            ),
            PipelineError::ShutdownError(m) => String::from_str("Pipeline shutdown error: ").concat(
                m.as_str(),
            ),
        }
    }
}

} // verus!
