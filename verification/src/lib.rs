//! A resource-lifecycle and execution-orchestration layer for an accelerator
//! inference engine.
//!
//! The crate manages the chain of handle-like resources that an inference
//! workflow needs (logger, builder, network definition, builder
//! configuration, serialized engine, runtime, engine, execution context and
//! device buffers), enforces the two-phase workflow (build-time optimization,
//! run-time execution) and offers a tensor-level execution API.
//!
//! The native engine is modelled explicitly: every handle wraps the state the
//! orchestration layer depends on, every fallible operation reports through
//! the structured error taxonomy in [`error`], and the contracts of the
//! public functions state exactly which inputs succeed and what each call
//! returns or changes.

pub mod builder;
pub mod codec;
pub mod cuda;
pub mod error;
pub mod executor;
pub mod logger;
pub mod onnx_parser;
pub mod runtime;
pub mod text;

pub use builder::Builder;
pub use builder::BuilderConfig;
pub use builder::NetworkDefinition;
pub use cuda::synchronize;
pub use cuda::DeviceBuffer;
pub use error::Error;
pub use executor::run_onnx_with_tensorrt;
pub use executor::run_onnx_zeroed;
pub use executor::TensorInput;
pub use executor::TensorOutput;
pub use onnx_parser::OnnxParser;
pub use runtime::CudaEngine;
pub use runtime::ExecutionContext;
pub use runtime::Runtime;
pub use logger::LogHandler;
pub use logger::Logger;
pub use logger::Severity;
pub use logger::StderrLogger;
