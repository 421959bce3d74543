use stream_pipeline::{OverflowPolicy, Pipeline, PipelineBuilder, PipelineError};

#[test]
fn test_pipeline_builder() {
    let result = PipelineBuilder::new()
        .add_stage("stage1", 10, OverflowPolicy::Block)
        .add_stage("stage2", 10, OverflowPolicy::Block)
        .build();
    assert!(result.is_ok());
}

#[test]
fn test_no_stages_error() {
    let result = PipelineBuilder::new().build();
    assert!(matches!(result, Err(PipelineError::NoStages)));
}

#[test]
fn test_pipeline_input_buffer() {
    let pipeline = PipelineBuilder::new()
        .add_stage("stage1", 10, OverflowPolicy::Block)
        .build()
        .unwrap();
    let input = pipeline.input();
    assert!(input.is_empty());
}

#[test]
fn build_makes_one_buffer_and_counters_per_stage() {
    let pipeline = PipelineBuilder::default()
        .add_stage("a", 3, OverflowPolicy::DropOldest)
        .add_stage("b", 7, OverflowPolicy::Block)
        .build()
        .unwrap();
    assert_eq!(pipeline.input().capacity(), 3);
    // Stage 0 writes into stage 1's input buffer; the last stage's output is
    // a buffer of its own.
    assert_eq!(pipeline.stage_output(0).unwrap().capacity(), 7);
    assert!(pipeline.stage_output(1).is_none());
    assert!(pipeline.stage_output(2).is_none());
    assert_eq!(pipeline.stage_metrics(1).unwrap().total_processed(), 0);
    assert!(pipeline.stage_metrics(2).is_none());
    assert_eq!(pipeline.all_metrics().len(), 2);
    assert!(!pipeline.is_running());
    let controller = pipeline.backpressure().unwrap();
    assert_eq!(controller.high_watermark(), 80);
    assert_eq!(controller.low_watermark(), 40);
    assert_eq!(pipeline.output_buffer_index(0), Some(1));
    assert_eq!(pipeline.output_buffer_index(1), None);
}

#[test]
fn backpressure_can_be_disabled() {
    let pipeline = PipelineBuilder::new()
        .add_stage("only", 4, OverflowPolicy::Block)
        .with_backpressure(false)
        .build()
        .unwrap();
    assert!(pipeline.backpressure().is_none());
}

#[test]
fn a_pipeline_starts_once() {
    let mut pipeline = PipelineBuilder::new()
        .add_stage("only", 4, OverflowPolicy::Block)
        .build()
        .unwrap();
    assert!(pipeline.mark_started().is_ok());
    assert!(pipeline.is_running());
    assert!(matches!(pipeline.mark_started(), Err(PipelineError::AlreadyStarted)));
    let (names, buffers, metrics, controller) = pipeline.into_parts();
    assert_eq!(names, vec!["only".to_string()]);
    assert_eq!(buffers.len(), 1);
    assert_eq!(metrics.len(), 1);
    assert!(controller.is_some());
}

#[test]
fn stop_reports_join_failures_first_then_the_first_stage_error() {
    assert!(Pipeline::stop_outcome(vec![Some(Ok(())), Some(Ok(()))]).is_ok());
    assert!(Pipeline::stop_outcome(vec![]).is_ok());
    match Pipeline::stop_outcome(vec![
        Some(Ok(())),
        Some(Err(PipelineError::StageError("first".to_string()))),
        Some(Err(PipelineError::ConfigError("second".to_string()))),
    ]) {
        Err(PipelineError::StageError(m)) => assert_eq!(m, "first"),
        _ => panic!("expected the first stage error"),
    }
    match Pipeline::stop_outcome(vec![
        Some(Err(PipelineError::StageError("first".to_string()))),
        None,
    ]) {
        Err(PipelineError::ThreadError(m)) => assert_eq!(m, "Join failed"),
        _ => panic!("expected a join failure"),
    }
}

#[test]
fn error_messages() {
    assert_eq!(PipelineError::AlreadyStarted.message(), "Pipeline has already been started");
    assert_eq!(PipelineError::NoStages.message(), "Cannot start pipeline with no stages");
    assert_eq!(
        PipelineError::StageError("boom".to_string()).message(),
        "Stage execution failed: boom"
    );
    assert_eq!(PipelineError::ThreadError("x".to_string()).message(), "Thread join error: x");
    assert_eq!(PipelineError::ConfigError("y".to_string()).message(), "Configuration error: y");
    assert_eq!(
        PipelineError::ShutdownError("z".to_string()).message(),
        "Pipeline shutdown error: z"
    );
}

#[test]
fn stopping_a_pipeline_that_never_started() {
    let mut pipeline = PipelineBuilder::new()
        .add_stage("s", 10, OverflowPolicy::Block)
        .build()
        .unwrap();
    assert!(pipeline.stop().is_ok());
    assert!(!pipeline.is_running());
    assert!(pipeline.stop().is_ok());
    assert!(pipeline.input().is_empty());
    assert_eq!(pipeline.stage_metrics(0).unwrap().total_processed(), 0);
    assert!(pipeline.mark_started().is_ok());
    assert!(pipeline.stop().is_ok());
    assert!(!pipeline.is_running());
}
