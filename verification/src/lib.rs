//! Benchmark orchestration and comparative-performance reporting for a
//! speech-to-text workload: configuration validation, sweep generation,
//! best-effort sweep execution, timing-derived metrics, cross-device
//! comparisons, and a verified JSON codec for persisted benchmark records.
//!
//! The external speech-to-text engine is a collaborator: callers run it and
//! hand its outcomes to this library as plain values. All durations are
//! carried as whole milliseconds and all ratios (real-time factor, speedup,
//! probabilities) as thousandths, so that every quantity is an exact integer.
pub mod benchmark;
pub mod error;
pub mod json;
pub mod text;
pub mod transcriber;
pub mod types;

pub use benchmark::BenchmarkResult;
pub use error::TranscriptionError;
pub use transcriber::FasterWhisperTranscriber;
pub use types::{ModelConfig, TranscriptionResult, TranscriptionSegment};
