# stream_pipeline

A backpressure-aware stream processing engine, verified with Verus.

- `src/` is the verified library: bounded FIFO ring buffers over
  `crossbeam`'s `ArrayQueue` with `Block` and `DropOldest` overflow policies
  (`buffer.rs`), a watermark controller with hysteresis (`backpressure.rs`),
  counters and sliding-window latency percentiles (`metrics.rs`), the
  processing stages and the per-stage runner state (`stage.rs`), the
  pipeline builder and the decisions of starting and stopping a pipeline
  (`pipeline.rs`), and the error type (`error.rs`). Every public function
  has a contract over a mathematical model; the laws of the library are
  public proof functions beside the code they speak of.
- `app/` runs pipelines on threads: shared buffer and metrics handles
  behind `parking_lot` mutexes, waiting producers, stage threads, the
  clock, floating-point reporting and `thiserror`'s `Error` on a copy of the
  error type.
- `tests/` exercises the library on concrete values.
