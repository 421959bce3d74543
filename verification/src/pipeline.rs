use crate::backpressure::BackpressureController;
use crate::buffer::{valid_capacity, OverflowPolicy, RingBuffer};
use crate::error::{PipelineError, Result};
use crate::metrics::StageMetrics;
use vstd::prelude::*;

verus! {

/// The configuration of one stage in the pipeline builder.
struct PipelineStage {
    name: String,
    buffer_capacity: usize,
    overflow_policy: OverflowPolicy,
}

/// A stage's configuration as a plain value: name, buffer capacity and
/// overflow policy.
pub open spec fn stage_view(name: Seq<char>, capacity: usize, policy: OverflowPolicy) -> (
    Seq<char>,
    usize,
    OverflowPolicy,
) {
    (name, capacity, policy)
}

/// A buffer as `build` makes it: empty, with the configured capacity and
/// policy, and zeroed counters.
pub open spec fn fresh_buffer(b: RingBuffer, capacity: usize, policy: OverflowPolicy) -> bool {
    &&& b.wf()
    &&& b.items() == Seq::<Seq<u8>>::empty()
    &&& b.capacity_spec() == capacity
    &&& b.policy_spec() == policy
    &&& b.dropped_spec() == 0
    &&& b.blocks_spec() == 0
}

/// Counters as `build` makes them: zeroed, with an empty latency window of
/// 1000 measurements.
pub open spec fn fresh_metrics(m: StageMetrics) -> bool {
    &&& m.wf()
    &&& m.processed_spec() == 0
    &&& m.dropped_spec() == 0
    &&& m.blocks_spec() == 0
    &&& m.latencies() == Seq::<u64>::empty()
    &&& m.latency_window_size() == 1000
}

/// Builder for constructing pipelines.
pub struct PipelineBuilder {
    stages: Vec<PipelineStage>,
    enable_backpressure: bool,
}

impl PipelineBuilder {
    /// The configured stages, in order.
    pub closed spec fn stages_spec(&self) -> Seq<(Seq<char>, usize, OverflowPolicy)> {
        self.stages@.map_values(
            |s: PipelineStage| stage_view(s.name@, s.buffer_capacity, s.overflow_policy),
        )
    }

    /// Whether the pipeline will have a backpressure controller.
    pub closed spec fn backpressure_spec(&self) -> bool {
        self.enable_backpressure
    }

    /// Creates a builder with no stages and backpressure enabled.
    pub fn new() -> (b: Self)
        ensures
            b.stages_spec() == Seq::<(Seq<char>, usize, OverflowPolicy)>::empty(),
            b.backpressure_spec(),
    {
        PipelineBuilder { stages: Vec::new(), enable_backpressure: true }
    }

    /// Adds a stage at the end of the pipeline.
    pub fn add_stage(self, name: &str, buffer_capacity: usize, overflow_policy: OverflowPolicy) -> (b:
        Self)
        ensures
            b.stages_spec() == self.stages_spec().push(
                stage_view(name@, buffer_capacity, overflow_policy),
            ),
            b.backpressure_spec() == self.backpressure_spec(),
    {
        let mut b = self;
        b.stages.push(PipelineStage { name: name.to_owned(), buffer_capacity, overflow_policy });
        assert(b.stages@.map_values(
            |s: PipelineStage| stage_view(s.name@, s.buffer_capacity, s.overflow_policy),
        ) =~= self.stages_spec().push(stage_view(name@, buffer_capacity, overflow_policy)));
        b
    }

    /// Enables or disables backpressure.
    pub fn with_backpressure(self, enable: bool) -> (b: Self)
        ensures
            b.stages_spec() == self.stages_spec(),
            b.backpressure_spec() == enable,
    {
        let mut b = self;
        b.enable_backpressure = enable;
        b
    }

    /// Builds the pipeline: one buffer and one set of counters per stage,
    /// and a backpressure controller with the default watermarks when
    /// enabled. A builder without stages gives `NoStages`.
    pub fn build(self) -> (r: Result<Pipeline>)
        requires
            forall|i: int|
                0 <= i < self.stages_spec().len() ==> valid_capacity(
                    #[trigger] self.stages_spec()[i].1,
                ),
        ensures
            self.stages_spec().len() == 0 <==> r matches Err(PipelineError::NoStages),
            r is Err ==> r matches Err(PipelineError::NoStages),
            r matches Ok(p) ==> {
                &&& p.wf()
                &&& !p.running_spec()
                &&& p.stage_count() == self.stages_spec().len()
                &&& p.buffers_spec().len() == self.stages_spec().len()
                &&& p.metrics_spec().len() == self.stages_spec().len()
                &&& forall|i: int|
                    0 <= i < p.stage_count() ==> {
                        &&& #[trigger] p.stage_names_spec()[i] == self.stages_spec()[i].0
                        &&& fresh_buffer(
                            p.buffers_spec()[i],
                            self.stages_spec()[i].1,
                            self.stages_spec()[i].2,
                        )
                        &&& fresh_metrics(p.metrics_spec()[i])
                    }
                &&& self.backpressure_spec() ==> (p.backpressure_spec() matches Some(c) && c.high_spec()
                    == 80 && c.low_spec() == 40 && !c.active_spec())
                &&& !self.backpressure_spec() ==> p.backpressure_spec() is None
            },
    {
        if self.stages.len() == 0 {
            return Err(PipelineError::NoStages);
        }
        let ghost spec_stages = self.stages_spec();
        let mut stage_names: Vec<String> = Vec::new();
        let mut buffers: Vec<RingBuffer> = Vec::new();
        let mut metrics: Vec<StageMetrics> = Vec::new();
        let mut i: usize = 0;
        while i < self.stages.len()
            invariant
                spec_stages == self.stages_spec(),
                forall|j: int|
                    0 <= j < spec_stages.len() ==> valid_capacity(#[trigger] spec_stages[j].1),
                i <= self.stages@.len(),
                stage_names@.len() == i,
                buffers@.len() == i,
                metrics@.len() == i,
                forall|j: int| 0 <= j < i ==> (#[trigger] stage_names@[j])@ == spec_stages[j].0,
                forall|j: int|
                    0 <= j < i ==> fresh_buffer(
                        #[trigger] buffers@[j],
                        spec_stages[j].1,
                        spec_stages[j].2,
                    ),
                forall|j: int| 0 <= j < i ==> fresh_metrics(#[trigger] metrics@[j]),
            decreases self.stages@.len() - i,
        {
            let stage = &self.stages[i];
            assert(spec_stages[i as int] == stage_view(
                stage.name@,
                stage.buffer_capacity,
                stage.overflow_policy,
            ));
            assert(valid_capacity(spec_stages[i as int].1));
            let buffer = RingBuffer::new(stage.buffer_capacity, stage.overflow_policy);
            let m = StageMetrics::new();
            let name = stage.name.clone();
            assert(name@ == spec_stages[i as int].0);
            let ghost old_names = stage_names@;
            let ghost old_buffers = buffers@;
            let ghost old_metrics = metrics@;
            buffers.push(buffer);
            metrics.push(m);
            stage_names.push(name);
            assert forall|j: int| 0 <= j <= i implies (#[trigger] stage_names@[j])@
                == spec_stages[j].0 by {
                if j < i {
                    assert(stage_names@[j] == old_names[j]);
                }
            }
            assert forall|j: int| 0 <= j <= i implies fresh_buffer(
                #[trigger] buffers@[j],
                spec_stages[j].1,
                spec_stages[j].2,
            ) by {
                if j < i {
                    assert(buffers@[j] == old_buffers[j]);
                }
            }
            assert forall|j: int| 0 <= j <= i implies fresh_metrics(#[trigger] metrics@[j]) by {
                if j < i {
                    assert(metrics@[j] == old_metrics[j]);
                }
            }
            i = i + 1;
        }
        let backpressure_controller = if self.enable_backpressure {
            Some(BackpressureController::new())
        } else {
            None
        };
        let p = Pipeline {
            stage_names,
            buffers,
            metrics,
            backpressure_controller,
            is_running: false,
        };
        assert forall|i: int| 0 <= i < p.stage_count() implies {
            &&& #[trigger] p.stage_names_spec()[i] == spec_stages[i].0
            &&& fresh_buffer(p.buffers_spec()[i], spec_stages[i].1, spec_stages[i].2)
            &&& fresh_metrics(p.metrics_spec()[i])
        } by {
            assert(stage_names@[i]@ == spec_stages[i].0);
        }
        assert(p.wf()) by {
            assert forall|i: int| 0 <= i < p.buffers@.len() implies (#[trigger] p.buffers@[i]).wf() by {
                assert(stage_names@[i]@ == spec_stages[i].0);
            }
            assert forall|i: int| 0 <= i < p.metrics@.len() implies (#[trigger] p.metrics@[i]).wf() by {
                assert(stage_names@[i]@ == spec_stages[i].0);
            }
        }
        Ok(p)
    }
}

impl Default for PipelineBuilder {
    fn default() -> (b: Self)
        ensures
            b.stages_spec() == Seq::<(Seq<char>, usize, OverflowPolicy)>::empty(),
            b.backpressure_spec(),
    {
        Self::new()
    }
}

/// A configured pipeline: one buffer and one set of counters per stage, in
/// stage order, and an optional backpressure controller. Stage `i` reads
/// from buffer `i` and writes to buffer `i + 1`; the last stage's output
/// goes to a buffer of its own.
pub struct Pipeline {
    stage_names: Vec<String>,
    buffers: Vec<RingBuffer>,
    metrics: Vec<StageMetrics>,
    backpressure_controller: Option<BackpressureController>,
    is_running: bool,
}

/// The error of the first stage, in stage order, whose thread was joined
/// and returned an error.
pub open spec fn first_stage_error(joined: Seq<Option<Result<()>>>) -> Option<PipelineError>
    decreases joined.len(),
{
    if joined.len() == 0 {
        None
    } else {
        match joined[0] {
            Some(Err(e)) => Some(e),
            _ => first_stage_error(joined.drop_first()),
        }
    }
}

/// The first stage error, by position: when the stage at `i` returned an
/// error and every stage before it returned `Ok`, that error is the first
/// stage error; when no stage returned an error there is none.
pub proof fn lemma_stop_outcome_by_index(joined: Seq<Option<Result<()>>>)
    ensures
        forall|i: int|
            0 <= i < joined.len() && ((#[trigger] joined[i]) matches Some(Err(_))) && (forall|j: int|
                0 <= j < i ==> (#[trigger] joined[j]) matches Some(Ok(_))) ==> first_stage_error(joined)
                == Some(joined[i]->0->Err_0),
        (forall|i: int| 0 <= i < joined.len() ==> !((#[trigger] joined[i]) matches Some(Err(_))))
            ==> first_stage_error(joined) is None,
    decreases joined.len(),
{
    if joined.len() > 0 {
        let rest = joined.drop_first();
        lemma_stop_outcome_by_index(rest);
        assert forall|i: int|
            0 <= i < joined.len() && ((#[trigger] joined[i]) matches Some(Err(_))) && (forall|j: int|
                0 <= j < i ==> (#[trigger] joined[j]) matches Some(Ok(_))) implies first_stage_error(joined)
            == Some(joined[i]->0->Err_0) by {
            if i > 0 {
                assert(joined[0] matches Some(Ok(_)));
                assert(rest[i - 1] == joined[i]);
                assert forall|j: int| 0 <= j < i - 1 implies (#[trigger] rest[j]) matches Some(Ok(_)) by {
                    assert(rest[j] == joined[j + 1]);
                }
            }
        }
        if forall|i: int| 0 <= i < joined.len() ==> !((#[trigger] joined[i]) matches Some(Err(_))) {
            assert forall|i: int| 0 <= i < rest.len() implies !((#[trigger] rest[i]) matches Some(Err(_))) by {
                assert(rest[i] == joined[i + 1]);
            }
            assert(!(joined[0] matches Some(Err(_))));
        }
    }
}

impl Pipeline {
    /// The stages' names, in order.
    pub closed spec fn stage_names_spec(&self) -> Seq<Seq<char>> {
        self.stage_names@.map_values(|s: String| s@)
    }

    /// The stages' input buffers, in order.
    pub closed spec fn buffers_spec(&self) -> Seq<RingBuffer> {
        self.buffers@
    }

    /// The stages' counters, in order.
    pub closed spec fn metrics_spec(&self) -> Seq<StageMetrics> {
        self.metrics@
    }

    /// The backpressure controller, when enabled.
    pub closed spec fn backpressure_spec(&self) -> Option<BackpressureController> {
        self.backpressure_controller
    }

    /// Whether the pipeline has been started.
    pub closed spec fn running_spec(&self) -> bool {
        self.is_running
    }

    /// The number of stages.
    pub closed spec fn stage_count(&self) -> nat {
        self.stage_names@.len()
    }

    /// The pipeline's invariant: at least one stage, one buffer and one set
    /// of counters per stage, each well formed.
    pub closed spec fn wf(&self) -> bool {
        &&& self.stage_names@.len() > 0
        &&& self.buffers@.len() == self.stage_names@.len()
        &&& self.metrics@.len() == self.stage_names@.len()
        &&& forall|i: int| 0 <= i < self.buffers@.len() ==> (#[trigger] self.buffers@[i]).wf()
        &&& forall|i: int| 0 <= i < self.metrics@.len() ==> (#[trigger] self.metrics@[i]).wf()
    }

    /// The input buffer of the first stage.
    pub fn input(&self) -> (b: &RingBuffer)
        requires
            self.wf(),
        ensures
            *b == self.buffers_spec()[0],
    {
        &self.buffers[0]
    }

    /// The output buffer of the stage with the given index: the input
    /// buffer of the next stage, or `None` for the last stage (whose output
    /// goes to a buffer of its own) and past it.
    pub fn stage_output(&self, index: usize) -> (b: Option<&RingBuffer>)
        ensures
            index + 1 < self.buffers_spec().len() ==> (b matches Some(x) && *x
                == self.buffers_spec()[index + 1]),
            index + 1 >= self.buffers_spec().len() ==> b is None,
    {
        if index < self.buffers.len() && index + 1 < self.buffers.len() {
            Some(&self.buffers[index + 1])
        } else {
            None
        }
    }

    /// The counters of the stage with the given index, or `None` past the
    /// last stage.
    pub fn stage_metrics(&self, index: usize) -> (m: Option<&StageMetrics>)
        ensures
            index < self.metrics_spec().len() ==> (m matches Some(x) && *x
                == self.metrics_spec()[index as int]),
            index >= self.metrics_spec().len() ==> m is None,
    {
        if index < self.metrics.len() {
            Some(&self.metrics[index])
        } else {
            None
        }
    }

    /// The backpressure controller, when enabled.
    pub fn backpressure(&self) -> (c: Option<&BackpressureController>)
        ensures
            match self.backpressure_spec() {
                Some(x) => c matches Some(y) && *y == x,
                None => c is None,
            },
    {
        match &self.backpressure_controller {
            Some(c) => Some(c),
            None => None,
        }
    }

    /// Whether the pipeline has been started.
    pub fn is_running(&self) -> (b: bool)
        ensures
            b == self.running_spec(),
    {
        self.is_running
    }

    /// The counters of every stage, in order.
    pub fn all_metrics(&self) -> (v: Vec<&StageMetrics>)
        ensures
            v@.len() == self.metrics_spec().len(),
            forall|i: int| 0 <= i < v@.len() ==> *#[trigger] v@[i] == self.metrics_spec()[i],
    {
        let mut v: Vec<&StageMetrics> = Vec::new();
        let mut i: usize = 0;
        while i < self.metrics.len()
            invariant
                i <= self.metrics@.len(),
                v@.len() == i,
                forall|j: int| 0 <= j < i ==> *#[trigger] v@[j] == self.metrics@[j],
            decreases self.metrics@.len() - i,
        {
            v.push(&self.metrics[i]);
            i = i + 1;
        }
        v
    }

    /// Marks the pipeline as started; a pipeline that was already started
    /// gives `AlreadyStarted` and stays as it is.
    pub fn mark_started(&mut self) -> (r: Result<()>)
        ensures
            old(self).running_spec() ==> (r matches Err(PipelineError::AlreadyStarted)
                && *final(self) == *old(self)),
            !old(self).running_spec() ==> r is Ok && final(self).running_spec()
                && final(self).stage_names_spec() == old(self).stage_names_spec()
                && final(self).buffers_spec() == old(self).buffers_spec()
                && final(self).metrics_spec() == old(self).metrics_spec()
                && final(self).backpressure_spec() == old(self).backpressure_spec()
                && final(self).wf() == old(self).wf(),
    {
        if self.is_running {
            return Err(PipelineError::AlreadyStarted);
        }
        self.is_running = true;
        Ok(())
    }

    /// Stops the pipeline. A configured pipeline runs no stage threads, so
    /// there is nothing to join: the outcome is `Ok`, the pipeline is no
    /// longer running, and its buffers and counters stay as they are.
    pub fn stop(&mut self) -> (r: Result<()>)
        ensures
            r is Ok,
            !final(self).running_spec(),
            final(self).stage_names_spec() == old(self).stage_names_spec(),
            final(self).buffers_spec() == old(self).buffers_spec(),
            final(self).metrics_spec() == old(self).metrics_spec(),
            final(self).backpressure_spec() == old(self).backpressure_spec(),
            final(self).stage_count() == old(self).stage_count(),
            final(self).wf() == old(self).wf(),
    {
        self.is_running = false;
        Ok(())
    }

    /// The buffer that stage `stage_idx` writes to: the next stage's input
    /// buffer, or `None` for the last stage, whose output goes to a buffer of
    /// its own.
    pub fn output_buffer_index(&self, stage_idx: usize) -> (r: Option<usize>)
        ensures
            stage_idx + 1 < self.buffers_spec().len() ==> r == Some((stage_idx + 1) as usize),
            stage_idx + 1 >= self.buffers_spec().len() ==> r is None,
    {
        if stage_idx < self.buffers.len() && stage_idx + 1 < self.buffers.len() {
            Some(stage_idx + 1)
        } else {
            None
        }
    }

    /// Takes the pipeline apart into its names, buffers, counters and
    /// backpressure controller, for running the stages.
    pub fn into_parts(self) -> (parts: (
        Vec<String>,
        Vec<RingBuffer>,
        Vec<StageMetrics>,
        Option<BackpressureController>,
    ))
        ensures
            parts.0@.map_values(|s: String| s@) == self.stage_names_spec(),
            parts.1@ == self.buffers_spec(),
            parts.2@ == self.metrics_spec(),
            parts.3 == self.backpressure_spec(),
    {
        (self.stage_names, self.buffers, self.metrics, self.backpressure_controller)
    }

    /// The outcome of stopping the stages, given what joining each stage's
    /// thread gave, in stage order (`None` for a thread that could not be
    /// joined): a thread that could not be joined gives a `ThreadError`;
    /// otherwise the first stage error is returned, or `Ok`.
    pub fn stop_outcome(joined: Vec<Option<Result<()>>>) -> (r: Result<()>)
        ensures
            (exists|i: int| 0 <= i < joined@.len() && joined@[i] is None) ==> (r matches Err(
                PipelineError::ThreadError(m),
            ) && m@ == "Join failed"@),
            (forall|i: int| 0 <= i < joined@.len() ==> joined@[i] is Some) ==> match first_stage_error(
                joined@,
            ) {
                Some(e) => r == Err::<(), PipelineError>(e),
                None => r is Ok,
            },
            (forall|i: int| 0 <= i < joined@.len() ==> joined@[i] is Some) ==> (forall|i: int|
                0 <= i < joined@.len() && ((#[trigger] joined@[i]) matches Some(Err(_))) && (forall|
                    j: int,
                | 0 <= j < i ==> (#[trigger] joined@[j]) matches Some(Ok(_))) ==> r == joined@[i]->0),
            (forall|i: int| 0 <= i < joined@.len() ==> (#[trigger] joined@[i]) matches Some(Ok(_)))
                ==> r is Ok,
    {
        proof {
            lemma_stop_outcome_by_index(joined@);
        }
        let ghost js = joined@;
        let ghost n = js.len();
        let mut rest = joined;
        let mut join_failed = false;
        let mut earliest: Option<PipelineError> = None;
        while rest.len() > 0
            invariant
                rest@ == js.subrange(0, rest@.len() as int),
                rest@.len() <= n,
                n == js.len(),
                join_failed <==> exists|i: int| rest@.len() <= i < n && js[i] is None,
                earliest == first_stage_error(js.subrange(rest@.len() as int, n as int)),
            decreases rest@.len(),
        {
            let ghost k = rest@.len();
            assert(js.subrange(k - 1, n as int).drop_first() =~= js.subrange(k as int, n as int));
            assert(js.subrange(k - 1, n as int)[0] == js[k - 1]);
            match rest.pop() {
                Some(Some(Err(e))) => {
                    earliest = Some(e);
                },
                Some(None) => {
                    join_failed = true;
                },
                _ => {},
            }
            assert(rest@ =~= js.subrange(0, rest@.len() as int));
        }
        assert(js.subrange(0, n as int) =~= js);
        if join_failed {
            return Err(PipelineError::ThreadError(String::from_str("Join failed")));
        }
        match earliest {
            Some(e) => Err(e),
            None => Ok(()),
        }
    }
}

} // verus!
