use stream_pipeline::{
    FilterStage, MapStage, OverflowPolicy, PassthroughStage, PipelineError, PushOutcome,
    RingBuffer, Stage, StageRunner,
};

#[test]
fn test_passthrough_stage() {
    let mut stage = PassthroughStage;
    let input = vec![1, 2, 3];
    let output = stage.process(input.clone()).unwrap();
    assert_eq!(output.len(), 1);
    assert_eq!(output[0], input);
}

#[test]
fn stage_test_filter_stage() {
    let mut stage = FilterStage::new("test_filter", |data: &[u8]| data[0] > 5);
    assert_eq!(stage.process(vec![3]).unwrap().len(), 0);
    assert_eq!(stage.process(vec![7]).unwrap().len(), 1);
    assert_eq!(stage.process(vec![7]).unwrap(), vec![vec![7]]);
    assert_eq!(stage.name(), "test_filter");
}

#[test]
fn stage_test_map_stage() {
    let mut stage = MapStage::new("test_map", |mut data: Vec<u8>| {
        data[0] *= 2;
        Ok(data)
    });
    let output = stage.process(vec![5]).unwrap();
    assert_eq!(output[0][0], 10);
}

#[test]
fn test_stage_runner_metrics() {
    let runner = StageRunner::new();
    assert_eq!(runner.metrics().total_processed(), 0);
}

#[test]
fn stage_names_and_hooks() {
    let mut pass = PassthroughStage;
    assert_eq!(pass.name(), "passthrough");
    assert!(pass.on_start().is_ok());
    assert!(pass.on_shutdown().is_ok());
    let filter = FilterStage::new("evens", |d: &[u8]| d[0] % 2 == 0);
    assert_eq!(filter.name(), "evens");
    let map = MapStage::new("double", |d: Vec<u8>| Ok(d));
    assert_eq!(map.name(), "double");
}

#[test]
fn filter_keeps_the_message_unchanged() {
    let mut stage = FilterStage::new("long", |d: &[u8]| d.len() > 2);
    assert_eq!(stage.process(vec![9, 8, 7]).unwrap(), vec![vec![9, 8, 7]]);
    assert_eq!(stage.process(vec![9]).unwrap(), Vec::<Vec<u8>>::new());
}

#[test]
fn map_errors_pass_through() {
    let mut stage = MapStage::new("reject", |_d: Vec<u8>| {
        Err(PipelineError::StageError("bad input".to_string()))
    });
    match stage.process(vec![1]) {
        Err(PipelineError::StageError(m)) => assert_eq!(m, "bad input"),
        _ => panic!("expected a stage error"),
    }
}

#[test]
fn runner_counts_delivered_outputs() {
    let mut runner = StageRunner::new();
    let mut output = RingBuffer::new(1, OverflowPolicy::Block);
    assert!(matches!(runner.deliver_output(&mut output, vec![1], false), PushOutcome::Pushed));
    assert_eq!(runner.metrics().total_processed(), 1);
    // The buffer is full: the message comes back and is not counted yet.
    assert!(matches!(
        runner.deliver_output(&mut output, vec![2], false),
        PushOutcome::Wait(m) if m == vec![2]
    ));
    assert_eq!(output.block_count(), 1);
    assert_eq!(runner.metrics().total_processed(), 1);
    assert_eq!(output.pop(), Some(vec![1]));
    assert!(matches!(runner.deliver_output(&mut output, vec![2], true), PushOutcome::Pushed));
    assert_eq!(output.block_count(), 1);
    assert_eq!(runner.metrics().total_processed(), 2);
}

#[test]
fn runner_records_latency_only_for_successful_processing() {
    let mut runner = StageRunner::new();
    let mut failing = MapStage::new("fail", |_d: Vec<u8>| {
        Err(PipelineError::StageError("no".to_string()))
    });
    assert!(runner.process_item(&mut failing, vec![1]).is_err());
    assert_eq!(runner.metrics().latency_percentile_nanos(50), 0);
    let mut slow = MapStage::new("slow", |d: Vec<u8>| {
        let start = std::time::Instant::now();
        while start.elapsed() < std::time::Duration::from_millis(2) {}
        Ok(d)
    });
    let out = runner.process_item(&mut slow, vec![4, 2]).unwrap();
    assert_eq!(out, vec![vec![4, 2]]);
    assert!(runner.metrics().latency_percentile_nanos(50) >= 2_000_000);
    assert_eq!(runner.metrics().total_processed(), 0);
}

#[test]
fn runner_shutdown_flag_is_shared() {
    let runner = StageRunner::new();
    let signal = runner.shutdown_signal();
    assert!(!runner.is_shutdown());
    runner.signal_shutdown();
    assert!(runner.is_shutdown());
    assert!(signal.load(std::sync::atomic::Ordering::Relaxed));
}
