//! Type-safe middleware and transform pipelines whose execution order, error
//! handling and recovery are specified and proved.
//!
//! - [`Pipeline`] runs continuation-based middleware: every pipe receives a
//!   [`Next`] for the rest of the chain.
//! - [`TransformPipeline`] runs transforms in sequence: every transform
//!   receives the value the one before it returned.

/// The error values that pipeline execution reports.
pub mod errors;

/// The continuation-based middleware pipeline.
pub mod middleware;

/// A fallible step pipeline whose steps share one error type.
pub mod pipeline;

/// An infallible step pipeline.
pub mod simple;

/// The sequential transform pipeline.
pub mod transform;

/// The traits and types shared by the pipelines.
pub mod types;

/// Helpers shared by the pipeline implementations.
pub mod utility;

pub use crate::errors::{DispatchError, PipelineError, RescueFailure, StepFailure};
pub use crate::middleware::{AsyncPipeline, Pipeline};
pub use crate::transform::{AsyncTransformPipeline, TransformPipeline};
pub use crate::types::{
    Finalize, Finalizer, FinalizerFn, Next, Observe, ObserverFn, Pipe, PipeResult, PipeType,
    PipelineResult, Sightings, Tap, TransformPipe, TransformPipeResult, TransformPipeType,
};
