//! The library's error type.
//!
//! Every failure of parsing, construction or execution is reported through
//! `PipelineError`; nothing panics. The spec-level shape of an error is
//! `ErrView`, which carries character sequences instead of `String`s so that
//! contracts can state exactly which error an input produces.

use vstd::prelude::*;
use vstd::string::StringExecFns;

verus! {

/// The spec-level shape of a `PipelineError`.
pub enum ErrView {
    /// A `key=value` parameter without an `=`.
    InvalidParameterFormat { param: Seq<char> },
    /// A parameter key a component kind does not know.
    UnknownParameter { key: Seq<char> },
    /// A parameter value that is not numeric; `name` is the parameter's name.
    InvalidValue { name: Seq<char> },
    /// A component tag outside the known set.
    UnknownComponentType { tag: Seq<char> },
    /// A spec handed to the wrong kind's constructor; `expected` is its tag.
    WrongSpecType { expected: Seq<char> },
    /// A parameter section on the analyser, which takes none.
    PeakTakesNoParams,
    /// A `parallel` parameter section that is not one `[ ... ]` pair.
    MalformedParallelBody,
    /// A `parallel` bracket pair with nothing inside.
    EmptyParallelBody,
    /// A pipeline whose first component is not a source.
    NotStartingWithSource,
    /// A processor run against an empty buffer.
    ProcessorNeedsInput,
    /// An analyser run against an empty buffer.
    AnalyserNeedsInput,
}

/// An error of parsing, construction or execution.
#[derive(Debug, Clone, PartialEq, Eq)]
pub enum PipelineError {
    InvalidParameterFormat { param: String },
    UnknownParameter { key: String },
    InvalidValue { name: String },
    UnknownComponentType { tag: String },
    WrongSpecType { expected: String },
    PeakTakesNoParams,
    MalformedParallelBody,
    EmptyParallelBody,
    NotStartingWithSource,
    ProcessorNeedsInput,
    AnalyserNeedsInput,
}

impl View for PipelineError {
    type V = ErrView;

    open spec fn view(&self) -> ErrView {
        match self {
            PipelineError::InvalidParameterFormat { param } => ErrView::InvalidParameterFormat {
                param: param@,
            },
            PipelineError::UnknownParameter { key } => ErrView::UnknownParameter { key: key@ },
            PipelineError::InvalidValue { name } => ErrView::InvalidValue { name: name@ },
            PipelineError::UnknownComponentType { tag } => ErrView::UnknownComponentType {
                tag: tag@,
            },
            PipelineError::WrongSpecType { expected } => ErrView::WrongSpecType {
                expected: expected@,
            },
            PipelineError::PeakTakesNoParams => ErrView::PeakTakesNoParams,
            PipelineError::MalformedParallelBody => ErrView::MalformedParallelBody,
            PipelineError::EmptyParallelBody => ErrView::EmptyParallelBody,
            PipelineError::NotStartingWithSource => ErrView::NotStartingWithSource,
            PipelineError::ProcessorNeedsInput => ErrView::ProcessorNeedsInput,
            PipelineError::AnalyserNeedsInput => ErrView::AnalyserNeedsInput,
        }
    }
}

/// The text of an error, at the spec level.
pub open spec fn message_of(e: ErrView) -> Seq<char> {
    match e {
        ErrView::InvalidParameterFormat { param } => "Invalid parameter format: "@ + param,
        ErrView::UnknownParameter { key } => "Unknown parameter: "@ + key,
        ErrView::InvalidValue { name } => "Invalid "@ + name + " value"@,
        ErrView::UnknownComponentType { tag } => "Unknown component type: "@ + tag,
        ErrView::WrongSpecType { expected } => "Not a "@ + expected + " spec"@,
        ErrView::PeakTakesNoParams => "peak takes no params: peak"@,
        ErrView::MalformedParallelBody => "parallel specs must be enclosed in [ ]"@,
        ErrView::EmptyParallelBody => "parallel requires at least one component spec"@,
        ErrView::NotStartingWithSource => "Pipeline must start with a Source"@,
        ErrView::ProcessorNeedsInput => "Processor requires input samples"@,
        ErrView::AnalyserNeedsInput => "Analyser requires input samples"@,
    }
}

impl PipelineError {
    /// A human-readable description of the error.
    pub fn message(&self) -> (r: String)
        ensures
            r@ == message_of(self@),
    {
        match self {
            PipelineError::InvalidParameterFormat { param } => String::from_str(
                "Invalid parameter format: ",
            ).concat(param.as_str()),
            PipelineError::UnknownParameter { key } => String::from_str(
                "Unknown parameter: ",
            ).concat(key.as_str()),
            PipelineError::InvalidValue { name } => String::from_str("Invalid ").concat(
                name.as_str(),
            ).concat(" value"),
            PipelineError::UnknownComponentType { tag } => String::from_str(
                "Unknown component type: ",
            ).concat(tag.as_str()),
            PipelineError::WrongSpecType { expected } => String::from_str("Not a ").concat(
                expected.as_str(),
            ).concat(" spec"),
            PipelineError::PeakTakesNoParams => String::from_str("peak takes no params: peak"),
            PipelineError::MalformedParallelBody => String::from_str(
                "parallel specs must be enclosed in [ ]",
            ),
            PipelineError::EmptyParallelBody => String::from_str(
                "parallel requires at least one component spec",
            ),
            PipelineError::NotStartingWithSource => String::from_str(
                "Pipeline must start with a Source",
            ),
            PipelineError::ProcessorNeedsInput => String::from_str(
                "Processor requires input samples",
            ),
            PipelineError::AnalyserNeedsInput => String::from_str(
                "Analyser requires input samples",
            ),
        }
    }
}

} // verus!
