//! Errors with a structured pipeline stage and exact message text.

use vstd::prelude::*;
use crate::text::cat;

verus! {

/// Where in the pipeline lifecycle a failure happened.
#[derive(Clone, Copy, Debug, PartialEq, Eq, Structural)]
pub enum PipelineStage {
    InputProbe,
    CapabilityProbe,
    Planning,
    DecoderInitialization,
    InputInteropInitialization,
    ProcessorInitialization,
    OutputInteropInitialization,
    EncoderInitialization,
    MuxInitialization,
    DecodeRuntime,
    InputInteropRuntime,
    ProcessingRuntime,
    OutputInteropRuntime,
    EncodeRuntime,
    MuxRuntime,
    Cancellation,
    Drain,
    Finalization,
}

/// Human-readable name of a stage.
pub open spec fn stage_text(stage: PipelineStage) -> Seq<char> {
    match stage {
        PipelineStage::InputProbe => "input probe"@,
        PipelineStage::CapabilityProbe => "capability probe"@,
        PipelineStage::Planning => "planning"@,
        PipelineStage::DecoderInitialization => "decoder initialization"@,
        PipelineStage::InputInteropInitialization => "input interop initialization"@,
        PipelineStage::ProcessorInitialization => "processor initialization"@,
        PipelineStage::OutputInteropInitialization => "output interop initialization"@,
        PipelineStage::EncoderInitialization => "encoder initialization"@,
        PipelineStage::MuxInitialization => "mux initialization"@,
        PipelineStage::DecodeRuntime => "decode runtime"@,
        PipelineStage::InputInteropRuntime => "input interop runtime"@,
        PipelineStage::ProcessingRuntime => "processing runtime"@,
        PipelineStage::OutputInteropRuntime => "output interop runtime"@,
        PipelineStage::EncodeRuntime => "encode runtime"@,
        PipelineStage::MuxRuntime => "mux runtime"@,
        PipelineStage::Cancellation => "cancellation"@,
        PipelineStage::Drain => "drain"@,
        PipelineStage::Finalization => "finalization"@,
    }
}

impl PipelineStage {
    /// The stage's name as printed in messages.
    pub fn name(self) -> (s: &'static str)
        ensures
            s@ == stage_text(self),
    {
        let s = match self {
            PipelineStage::InputProbe => "input probe",
            PipelineStage::CapabilityProbe => "capability probe",
            PipelineStage::Planning => "planning",
            PipelineStage::DecoderInitialization => "decoder initialization",
            PipelineStage::InputInteropInitialization => "input interop initialization",
            PipelineStage::ProcessorInitialization => "processor initialization",
            PipelineStage::OutputInteropInitialization => "output interop initialization",
            PipelineStage::EncoderInitialization => "encoder initialization",
            PipelineStage::MuxInitialization => "mux initialization",
            PipelineStage::DecodeRuntime => "decode runtime",
            PipelineStage::InputInteropRuntime => "input interop runtime",
            PipelineStage::ProcessingRuntime => "processing runtime",
            PipelineStage::OutputInteropRuntime => "output interop runtime",
            PipelineStage::EncodeRuntime => "encode runtime",
            PipelineStage::MuxRuntime => "mux runtime",
            PipelineStage::Cancellation => "cancellation",
            PipelineStage::Drain => "drain",
            PipelineStage::Finalization => "finalization",
        };
        proof {
            reveal_strlit("input probe");
            reveal_strlit("capability probe");
            reveal_strlit("planning");
            reveal_strlit("decoder initialization");
            reveal_strlit("input interop initialization");
            reveal_strlit("processor initialization");
            reveal_strlit("output interop initialization");
            reveal_strlit("encoder initialization");
            reveal_strlit("mux initialization");
            reveal_strlit("decode runtime");
            reveal_strlit("input interop runtime");
            reveal_strlit("processing runtime");
            reveal_strlit("output interop runtime");
            reveal_strlit("encode runtime");
            reveal_strlit("mux runtime");
            reveal_strlit("cancellation");
            reveal_strlit("drain");
            reveal_strlit("finalization");
        }
        s
    }
}

/// A failure attributed to a pipeline stage and operation.
#[derive(Debug)]
pub struct PipelineError {
    pub stage: PipelineStage,
    pub operation: &'static str,
    pub source: Box<Error>,
}

/// Library errors.
#[derive(Debug)]
pub enum Error {
    InvalidConfig(String),
    UnsupportedFrame(String),
    Media(String),
    Cpu(String),
    Vulkan(String),
    DeviceLost(String),
    TeardownTimeout(String),
    Pipeline { stage: PipelineStage, error: PipelineError },
    Cancelled,
}

pub type Result<T> = core::result::Result<T, Error>;

impl PipelineError {
    /// The wrapped cause.
    pub open spec fn cause(self) -> Error {
        *self.source
    }

    pub fn new(stage: PipelineStage, operation: &'static str, source: Error) -> (e: Self)
        ensures
            e.stage == stage,
            e.operation == operation,
            e.cause() == source,
    {
        PipelineError { stage, operation, source: Box::new(source) }
    }

    pub fn source_error(&self) -> (e: &Error)
        ensures
            *e == self.cause(),
    {
        &self.source
    }

    /// `"{operation} failed: {source}"`.
    pub fn to_string(&self) -> (s: String)
        ensures
            s@ == pipeline_error_text(*self),
        decreases *self,
    {
        let mut s = cat(self.operation, " failed: ");
        let inner = self.source.to_string();
        s.append(inner.as_str());
        proof { reveal_strlit(" failed: "); }
        s
    }
}

/// Message text of an error, as printed.
pub open spec fn error_text(e: Error) -> Seq<char>
    decreases e,
{
    match e {
        Error::InvalidConfig(m) => "invalid configuration: "@ + m@,
        Error::UnsupportedFrame(m) => "unsupported frame: "@ + m@,
        Error::Media(m) => "media operation failed: "@ + m@,
        Error::Cpu(m) => "CPU backend failed: "@ + m@,
        Error::Vulkan(m) => "Vulkan backend failed: "@ + m@,
        Error::DeviceLost(m) => "Vulkan device lost: "@ + m@,
        Error::TeardownTimeout(m) => "GPU teardown timed out: "@ + m@,
        Error::Pipeline { stage, error } => "pipeline "@ + stage_text(stage) + ": "@
            + error.operation@ + " failed: "@ + error_text(*error.source),
        Error::Cancelled => "pipeline was cancelled"@,
    }
}

/// Message text of a pipeline error.
pub open spec fn pipeline_error_text(e: PipelineError) -> Seq<char> {
    e.operation@ + " failed: "@ + error_text(e.cause())
}

/// Wrapping a cause under a stage keeps an already-structured error as it is.
pub open spec fn wrap_spec(stage: PipelineStage, operation: &'static str, source: Error) -> Error {
    if source is Pipeline {
        source
    } else {
        Error::Pipeline {
            stage,
            error: PipelineError { stage, operation, source: Box::new(source) },
        }
    }
}

/// The stage an error reports, if any.
pub open spec fn stage_of(e: Error) -> Option<PipelineStage> {
    match e {
        Error::Pipeline { stage, .. } => Some(stage),
        Error::Cancelled => Some(PipelineStage::Cancellation),
        _ => None,
    }
}

/// `r` is an `UnsupportedFrame` error with message `m`.
pub open spec fn unsupported_with<T>(r: Result<T>, m: Seq<char>) -> bool {
    r matches Err(Error::UnsupportedFrame(x)) && x@ == m
}

/// `r` is an `InvalidConfig` error with message `m`.
pub open spec fn invalid_with<T>(r: Result<T>, m: Seq<char>) -> bool {
    r matches Err(Error::InvalidConfig(x)) && x@ == m
}

/// `r` is a `Cpu` error with message `m`.
pub open spec fn cpu_with<T>(r: Result<T>, m: Seq<char>) -> bool {
    r matches Err(Error::Cpu(x)) && x@ == m
}

/// `r` is a `Media` error with message `m`.
pub open spec fn media_with<T>(r: Result<T>, m: Seq<char>) -> bool {
    r matches Err(Error::Media(x)) && x@ == m
}

impl Error {
    /// Attributes `source` to `stage`, unless it already carries a stage.
    pub fn pipeline(stage: PipelineStage, operation: &'static str, source: Error) -> (e: Self)
        ensures
            e == wrap_spec(stage, operation, source),
    {
        if let Error::Pipeline { .. } = source {
            return source;
        }
        Error::Pipeline { stage, error: PipelineError::new(stage, operation, source) }
    }

    /// A staged media failure with a plain message.
    pub fn pipeline_message(stage: PipelineStage, operation: &'static str, message: String) -> (e: Self)
        ensures
            e == wrap_spec(stage, operation, Error::Media(message)),
    {
        Self::pipeline(stage, operation, Error::Media(message))
    }

    pub fn stage(&self) -> (s: Option<PipelineStage>)
        ensures
            s == stage_of(*self),
    {
        match self {
            Error::Pipeline { stage, .. } => Some(*stage),
            Error::Cancelled => Some(PipelineStage::Cancellation),
            _ => None,
        }
    }

    pub fn is_cancelled(&self) -> (b: bool)
        ensures
            b == (*self is Cancelled),
    {
        matches!(self, Error::Cancelled)
    }

    /// The error's message.
    pub fn to_string(&self) -> (s: String)
        ensures
            s@ == error_text(*self),
        decreases *self,
    {
        proof {
            reveal_strlit("invalid configuration: ");
            reveal_strlit("unsupported frame: ");
            reveal_strlit("media operation failed: ");
            reveal_strlit("CPU backend failed: ");
            reveal_strlit("Vulkan backend failed: ");
            reveal_strlit("Vulkan device lost: ");
            reveal_strlit("GPU teardown timed out: ");
            reveal_strlit("pipeline ");
            reveal_strlit(": ");
            reveal_strlit("pipeline was cancelled");
        }
        match self {
            Error::InvalidConfig(m) => cat("invalid configuration: ", m.as_str()),
            Error::UnsupportedFrame(m) => cat("unsupported frame: ", m.as_str()),
            Error::Media(m) => cat("media operation failed: ", m.as_str()),
            Error::Cpu(m) => cat("CPU backend failed: ", m.as_str()),
            Error::Vulkan(m) => cat("Vulkan backend failed: ", m.as_str()),
            Error::DeviceLost(m) => cat("Vulkan device lost: ", m.as_str()),
            Error::TeardownTimeout(m) => cat("GPU teardown timed out: ", m.as_str()),
            Error::Pipeline { stage, error } => {
                let mut s = cat("pipeline ", stage.name());
                s.append(": ");
                let inner = error.to_string();
                s.append(inner.as_str());
                s
            },
            Error::Cancelled => String::from_str("pipeline was cancelled"),
        }
    }
}

} // verus!
