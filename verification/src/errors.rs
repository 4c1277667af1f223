//! The error values that pipeline execution reports.
use vstd::prelude::*;

verus! {

/// The error returned by the public execution methods of every pipeline.
///
/// - `StepFailure`: a named step failed with a message.
/// - `InputMissing`: the pipeline ran before any input was sent.
/// - `DispatchError`: a dispatch operation failed.
/// - `RescueFailure`: a rescue handler itself failed.
/// - `Custom`: an error of the caller's own kind, carried by its description.
#[derive(Debug)]
pub enum PipelineError {
    StepFailure(StepFailure),
    InputMissing,
    DispatchError(DispatchError),
    RescueFailure(RescueFailure),
    Custom(String),
}

/// A failure of one named pipeline step.
#[derive(Debug)]
pub struct StepFailure {
    /// The name of the step that failed.
    pub step: &'static str,
    /// A readable description of the failure.
    pub message: String,
}

/// A failure of a dispatch operation.
#[derive(Debug)]
pub struct DispatchError {
    /// The name of the dispatch method that failed.
    pub method: &'static str,
    /// A readable description of the failure.
    pub message: String,
}

/// A failure of a rescue handler.
#[derive(Debug)]
pub struct RescueFailure {
    /// The name of the rescue handler that failed.
    pub rescue: &'static str,
    /// A readable description of the failure.
    pub message: String,
}

/// The text "Step `<step>` failed: <message>".
pub open spec fn step_failure_text(step: Seq<char>, message: Seq<char>) -> Seq<char> {
    "Step `"@ + step + "` failed: "@ + message
}

/// The text "Dispatch `<method>` error: <message>".
pub open spec fn dispatch_error_text(method: Seq<char>, message: Seq<char>) -> Seq<char> {
    "Dispatch `"@ + method + "` error: "@ + message
}

/// The text "Rescue `<rescue>` failed: <message>".
pub open spec fn rescue_failure_text(rescue: Seq<char>, message: Seq<char>) -> Seq<char> {
    "Rescue `"@ + rescue + "` failed: "@ + message
}

/// The readable description of a pipeline error.
pub open spec fn error_text(err: PipelineError) -> Seq<char> {
    match err {
        PipelineError::StepFailure(f) => step_failure_text(f.step@, f.message@),
        PipelineError::InputMissing => "Pipeline input not set"@,
        PipelineError::DispatchError(d) => dispatch_error_text(d.method@, d.message@),
        PipelineError::RescueFailure(r) => rescue_failure_text(r.rescue@, r.message@),
        PipelineError::Custom(text) => text@,
    }
}

/// Joins a label, a quoted name and a message: `<lead><name><middle><message>`.
fn labelled(lead: &str, name: &str, middle: &str, message: &str) -> (text: String)
    ensures
        text@ == lead@ + name@ + middle@ + message@,
{
    let mut text = String::new();
    text.append(lead);
    text.append(name);
    text.append(middle);
    text.append(message);
    text
}

impl StepFailure {
    /// The readable description: "Step `<step>` failed: <message>".
    pub fn describe(&self) -> (text: String)
        ensures
            text@ == step_failure_text(self.step@, self.message@),
    {
        labelled("Step `", self.step, "` failed: ", self.message.as_str())
    }
}

impl DispatchError {
    /// The readable description: "Dispatch `<method>` error: <message>".
    pub fn describe(&self) -> (text: String)
        ensures
            text@ == dispatch_error_text(self.method@, self.message@),
    {
        labelled("Dispatch `", self.method, "` error: ", self.message.as_str())
    }
}

impl RescueFailure {
    /// The readable description: "Rescue `<rescue>` failed: <message>".
    pub fn describe(&self) -> (text: String)
        ensures
            text@ == rescue_failure_text(self.rescue@, self.message@),
    {
        labelled("Rescue `", self.rescue, "` failed: ", self.message.as_str())
    }
}

impl PipelineError {
    /// The readable description of this error; the wrapped failures describe themselves.
    pub fn describe(&self) -> (text: String)
        ensures
            text@ == error_text(*self),
    {
        match self {
            PipelineError::StepFailure(failure) => failure.describe(),
            PipelineError::InputMissing => String::from_str("Pipeline input not set"),
            PipelineError::DispatchError(failure) => failure.describe(),
            PipelineError::RescueFailure(failure) => failure.describe(),
            PipelineError::Custom(text) => text.clone(),
        }
    }
}

impl From<StepFailure> for PipelineError {
    fn from(failure: StepFailure) -> (err: Self) {
        PipelineError::StepFailure(failure)
    }
}

impl vstd::std_specs::convert::FromSpecImpl<StepFailure> for PipelineError {
    open spec fn obeys_from_spec() -> bool {
        true
    }

    open spec fn from_spec(failure: StepFailure) -> Self {
        PipelineError::StepFailure(failure)
    }
}

impl From<DispatchError> for PipelineError {
    fn from(failure: DispatchError) -> (err: Self) {
        PipelineError::DispatchError(failure)
    }
}

impl vstd::std_specs::convert::FromSpecImpl<DispatchError> for PipelineError {
    open spec fn obeys_from_spec() -> bool {
        true
    }

    open spec fn from_spec(failure: DispatchError) -> Self {
        PipelineError::DispatchError(failure)
    }
}

impl From<RescueFailure> for PipelineError {
    fn from(failure: RescueFailure) -> (err: Self) {
        PipelineError::RescueFailure(failure)
    }
}

impl vstd::std_specs::convert::FromSpecImpl<RescueFailure> for PipelineError {
    open spec fn obeys_from_spec() -> bool {
        true
    }

    open spec fn from_spec(failure: RescueFailure) -> Self {
        PipelineError::RescueFailure(failure)
    }
}

} // verus!
