use crate::backpressure::share_flag;
use crate::buffer::{bump, offer_outcome, retry_outcome, PushOutcome, RingBuffer};
use crate::error::Result;
use crate::metrics::StageMetrics;
use std::sync::atomic::{AtomicBool, Ordering};
use std::sync::Arc;
use std::time::{Duration, Instant};
use vstd::prelude::*;

verus! {

/// A processing stage of the pipeline: it turns one input message into
/// zero, one or more output messages.
pub trait Stage: Send + 'static {
    /// Whether `r` is what processing `input` may give for this stage. A
    /// stage that says nothing of its processing admits every result.
    open spec fn process_result(&self, input: Vec<u8>, r: Result<Vec<Vec<u8>>>) -> bool {
        true
    }

    /// Whether the stage can process `input`. A stage that says nothing
    /// can process every message.
    open spec fn process_requires(&self, input: Vec<u8>) -> bool {
        true
    }

    /// Processes an input message and produces the output messages.
    fn process(&mut self, input: Vec<u8>) -> (r: Result<Vec<Vec<u8>>>)
        requires
            old(self).process_requires(input),
        ensures
            old(self).process_result(input, r),
    ;

    /// Called before the stage starts processing; unless a stage says
    /// otherwise, it succeeds.
    fn on_start(&mut self) -> (r: Result<()>)
        default_ensures
            r is Ok,
    {
        Ok(())
    }

    /// Called when the stage is shutting down; unless a stage says
    /// otherwise, it succeeds.
    fn on_shutdown(&mut self) -> (r: Result<()>)
        default_ensures
            r is Ok,
    {
        Ok(())
    }

    /// A human-readable name for the stage; unless a stage says otherwise,
    /// it is "stage".
    fn name(&self) -> (n: &str)
        default_ensures
            n@ == "stage"@,
    {
        "stage"
    }
}

/// The clock's instant type, opaque to Verus.
#[verifier::external_type_specification]
#[verifier::external_body]
pub struct ExInstant(Instant);

/// Calls `Instant::now`: the current instant. Nothing is stated of it.
#[verifier::external_body]
fn clock_now() -> Instant {
    Instant::now()
}

/// Calls `Instant::elapsed`: the time since `start`. Nothing is stated of
/// it: it depends on the clock.
#[verifier::external_body]
fn clock_elapsed(start: &Instant) -> Duration {
    start.elapsed()
}

/// Calls `Duration::as_nanos`: the whole nanoseconds of a duration, which
/// comes from the clock; nothing is stated of it.
#[verifier::external_body]
fn duration_nanos(d: &Duration) -> u128 {
    d.as_nanos()
}

/// Reads the shutdown flag; another thread may have set it.
fn read_flag(flag: &AtomicBool) -> bool {
    flag.load(Ordering::Relaxed)
}

/// Sets the shutdown flag.
fn raise_flag(flag: &AtomicBool) {
    flag.store(true, Ordering::Relaxed);
}

/// The state of a running stage: its counters and the flag that asks it to
/// shut down. The messages themselves flow through the buffers that the
/// caller hands to `deliver_output`.
pub struct StageRunner {
    metrics: StageMetrics,
    shutdown: Arc<AtomicBool>,
}

impl StageRunner {
    /// The stage's counters.
    pub closed spec fn metrics_spec(&self) -> StageMetrics {
        self.metrics
    }

    /// The shutdown flag.
    pub closed spec fn shutdown_spec(&self) -> AtomicBool {
        *self.shutdown
    }

    /// The runner's invariant.
    pub closed spec fn wf(&self) -> bool {
        self.metrics.wf()
    }

    /// Creates a runner with zeroed counters and a lowered shutdown flag.
    pub fn new() -> (r: Self)
        ensures
            r.wf(),
            r.metrics_spec().processed_spec() == 0,
            r.metrics_spec().dropped_spec() == 0,
            r.metrics_spec().blocks_spec() == 0,
            r.metrics_spec().latencies() == Seq::<u64>::empty(),
            r.metrics_spec().latency_window_size() == 1000,
    {
        StageRunner { metrics: StageMetrics::new(), shutdown: Arc::new(AtomicBool::new(false)) }
    }

    /// The stage's counters.
    pub fn metrics(&self) -> (m: &StageMetrics)
        ensures
            *m == self.metrics_spec(),
    {
        &self.metrics
    }

    /// A handle to the shutdown flag, for the thread that stops the stage.
    pub fn shutdown_signal(&self) -> (f: Arc<AtomicBool>)
        ensures
            *f == self.shutdown_spec(),
    {
        share_flag(&self.shutdown)
    }

    /// Asks the stage to shut down.
    pub fn signal_shutdown(&self) {
        raise_flag(&self.shutdown)
    }

    /// Whether the stage was asked to shut down.
    pub fn is_shutdown(&self) -> bool {
        read_flag(&self.shutdown)
    }

    /// Hands the input message to the stage and, when the stage succeeds,
    /// records how long processing took; the stage's result for the message
    /// is returned as it is, for the caller to deliver the outputs or report
    /// the error.
    pub fn process_item<S: Stage + ?Sized>(&mut self, stage: &mut S, item: Vec<u8>) -> (r: Result<
        Vec<Vec<u8>>,
    >)
        requires
            old(self).wf(),
            old(stage).process_requires(item),
        ensures
            final(self).wf(),
            old(stage).process_result(item, r),
            r is Ok ==> exists|nanos: u64|
                final(self).metrics_spec().latencies() == #[trigger] crate::metrics::window_push(
                    old(self).metrics_spec().latencies(),
                    nanos,
                    old(self).metrics_spec().latency_window_size(),
                ),
            r is Err ==> final(self).metrics_spec().latencies() == old(
                self,
            ).metrics_spec().latencies(),
            final(self).metrics_spec().latency_window_size() == old(
                self,
            ).metrics_spec().latency_window_size(),
            final(self).metrics_spec().processed_spec() == old(self).metrics_spec().processed_spec(),
            final(self).metrics_spec().dropped_spec() == old(self).metrics_spec().dropped_spec(),
            final(self).metrics_spec().blocks_spec() == old(self).metrics_spec().blocks_spec(),
            final(self).shutdown_spec() == old(self).shutdown_spec(),
    {
        let ghost before = self.metrics.latencies();
        let start = clock_now();
        let result = stage.process(item);
        if result.is_ok() {
            let elapsed = duration_nanos(&clock_elapsed(&start)) as u64;
            self.metrics.record_latency(elapsed);
            assert(self.metrics.latencies() == crate::metrics::window_push(
                before,
                elapsed,
                self.metrics.latency_window_size(),
            ));
        }
        assert(before == old(self).metrics_spec().latencies());
        result
    }

    /// Delivers one output message to the output buffer. On a first attempt
    /// the buffer's overflow policy applies (`offer`); on a retry after
    /// waiting, nothing is counted by the buffer (`try_push`). A delivered
    /// message counts as processed; a message that must wait for space comes
    /// back in `Wait`, for the caller to wait and retry.
    pub fn deliver_output(&mut self, output: &mut RingBuffer, item: Vec<u8>, retry: bool) -> (r:
        PushOutcome)
        requires
            old(output).wf(),
            old(self).wf(),
        ensures
            final(output).wf(),
            final(self).wf(),
            !retry ==> offer_outcome(*old(output), *final(output), item, r),
            retry ==> retry_outcome(*old(output), *final(output), item, r),
            r is Pushed ==> final(self).metrics_spec().processed_spec() == bump(
                old(self).metrics_spec().processed_spec(),
            ),
            r is Wait ==> final(self).metrics_spec().processed_spec() == old(
                self,
            ).metrics_spec().processed_spec(),
            final(self).metrics_spec().dropped_spec() == old(self).metrics_spec().dropped_spec(),
            final(self).metrics_spec().blocks_spec() == old(self).metrics_spec().blocks_spec(),
            final(self).metrics_spec().latencies() == old(self).metrics_spec().latencies(),
            final(self).shutdown_spec() == old(self).shutdown_spec(),
    {
        let r = if retry {
            output.try_push(item)
        } else {
            output.offer(item)
        };
        if let PushOutcome::Pushed = r {
            self.metrics.record_processed();
        }
        r
    }
}

/// A stage that passes every message through unchanged.
#[derive(Debug)]
pub struct PassthroughStage;

impl Stage for PassthroughStage {
    /// The only output is the input message.
    open spec fn process_result(&self, input: Vec<u8>, r: Result<Vec<Vec<u8>>>) -> bool {
        r matches Ok(v) && v@.len() == 1 && v@[0] == input
    }

    fn process(&mut self, input: Vec<u8>) -> (r: Result<Vec<Vec<u8>>>)
        ensures
            r matches Ok(v) && v@.len() == 1 && v@[0] == input,
            *final(self) == *old(self),
    {
        Ok(vec![input])
    }

    fn name(&self) -> (n: &str)
        ensures
            n@ == "passthrough"@,
    {
        "passthrough"
    }
}

/// A stage that passes through the messages that satisfy a predicate and
/// drops the others.
pub struct FilterStage<F> where F: Fn(&[u8]) -> bool + Send + 'static {
    name: String,
    predicate: F,
}

impl<F> FilterStage<F> where F: Fn(&[u8]) -> bool + Send + 'static {
    /// The name of the stage.
    pub closed spec fn name_spec(&self) -> Seq<char> {
        self.name@
    }

    /// The predicate of the stage.
    pub closed spec fn predicate_spec(&self) -> F {
        self.predicate
    }

    /// Creates a filter stage with a name and a predicate.
    pub fn new(name: &str, predicate: F) -> (s: Self)
        ensures
            s.name_spec() == name@,
            s.predicate_spec() == predicate,
    {
        FilterStage { name: name.to_owned(), predicate }
    }
}

impl<F> Stage for FilterStage<F> where F: Fn(&[u8]) -> bool + Send + 'static {
    /// The predicate can be called on the message.
    open spec fn process_requires(&self, input: Vec<u8>) -> bool {
        forall|d: &[u8]| d@ == input@ ==> #[trigger] self.predicate_spec().requires((d,))
    }

    /// The input message is the only output when the predicate holds of it,
    /// and there is no output otherwise.
    open spec fn process_result(&self, input: Vec<u8>, r: Result<Vec<Vec<u8>>>) -> bool {
        r matches Ok(v) && exists|d: &[u8], keep: bool|
            {
                &&& d@ == input@
                &&& self.predicate_spec().ensures((d,), keep)
                &&& keep ==> v@.len() == 1 && v@[0] == input
                &&& !keep ==> v@.len() == 0
            }
    }

    fn process(&mut self, input: Vec<u8>) -> (r: Result<Vec<Vec<u8>>>)
        ensures
            old(self).process_result(input, r),
            *final(self) == *old(self),
    {
        let d = input.as_slice();
        let ghost dv = d;
        let keep = (self.predicate)(d);
        assert(dv@ == input@);
        assert(self.predicate_spec().ensures((dv,), keep));
        if keep {
            Ok(vec![input])
        } else {
            Ok(vec![])
        }
    }

    fn name(&self) -> (n: &str)
        ensures
            n@ == self.name_spec(),
    {
        self.name.as_str()
    }
}

/// A stage that transforms every message with a mapping function.
pub struct MapStage<F> where F: Fn(Vec<u8>) -> Result<Vec<u8>> + Send + 'static {
    name: String,
    mapper: F,
}

impl<F> MapStage<F> where F: Fn(Vec<u8>) -> Result<Vec<u8>> + Send + 'static {
    /// The name of the stage.
    pub closed spec fn name_spec(&self) -> Seq<char> {
        self.name@
    }

    /// The mapping function of the stage.
    pub closed spec fn mapper_spec(&self) -> F {
        self.mapper
    }

    /// Creates a map stage with a name and a mapping function.
    pub fn new(name: &str, mapper: F) -> (s: Self)
        ensures
            s.name_spec() == name@,
            s.mapper_spec() == mapper,
    {
        MapStage { name: name.to_owned(), mapper }
    }
}

impl<F> Stage for MapStage<F> where F: Fn(Vec<u8>) -> Result<Vec<u8>> + Send + 'static {
    /// The mapping function can be called on the message.
    open spec fn process_requires(&self, input: Vec<u8>) -> bool {
        self.mapper_spec().requires((input,))
    }

    /// The mapping function's result on the input message is the only
    /// output, or the error when it fails.
    open spec fn process_result(&self, input: Vec<u8>, r: Result<Vec<Vec<u8>>>) -> bool {
        match r {
            Ok(v) => v@.len() == 1 && self.mapper_spec().ensures((input,), Ok(v@[0])),
            Err(e) => self.mapper_spec().ensures((input,), Err(e)),
        }
    }

    fn process(&mut self, input: Vec<u8>) -> (r: Result<Vec<Vec<u8>>>)
        ensures
            old(self).process_result(input, r),
            *final(self) == *old(self),
    {
        let mapped = (self.mapper)(input)?;
        Ok(vec![mapped])
    }

    fn name(&self) -> (n: &str)
        ensures
            n@ == self.name_spec(),
    {
        self.name.as_str()
    }
}

} // verus!
