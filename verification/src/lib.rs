//! A backpressure-aware stream processing engine.
//!
//! The library holds the logic of a multi-stage message pipeline: bounded
//! FIFO buffers with an overflow policy, a watermark-based backpressure
//! controller with hysteresis, per-stage counters and latency percentiles
//! over a sliding window, the processing stages themselves and the
//! pipeline's configuration. Each part is specified over a mathematical
//! model and proved by Verus; the buffers keep their messages in
//! `crossbeam`'s `ArrayQueue`.

pub mod backpressure;
pub mod buffer;
pub mod error;
pub mod metrics;
pub mod pipeline;
pub mod stage;

pub use backpressure::{BackpressureController, BackpressureSignal};
pub use buffer::{OverflowPolicy, PushOutcome, RingBuffer};
pub use error::{PipelineError, Result};
pub use metrics::{PercentileTracker, StageMetrics};
pub use pipeline::{Pipeline, PipelineBuilder};
pub use stage::{FilterStage, MapStage, PassthroughStage, Stage, StageRunner};
