use stream_pipeline::backpressure::backoff_micros;
use stream_pipeline::{BackpressureController, OverflowPolicy, RingBuffer};

#[test]
fn backpressure_test_backpressure_activation() {
    let mut controller = BackpressureController::with_watermarks(80, 40);
    let mut buffer = RingBuffer::new(10, OverflowPolicy::Block);

    // Fill buffer to 90%
    for i in 0..9u8 {
        let _ = buffer.push(vec![i]);
    }

    assert!(controller.check_and_update(&buffer));
    assert!(controller.is_active());
}

#[test]
fn test_backpressure_release() {
    let mut controller = BackpressureController::with_watermarks(80, 40);
    let mut buffer = RingBuffer::new(10, OverflowPolicy::Block);

    // Activate backpressure
    for i in 0..9u8 {
        let _ = buffer.push(vec![i]);
    }
    assert!(controller.check_and_update(&buffer));

    // Drain buffer
    while buffer.pop().is_some() {}

    // Should release
    assert!(!controller.check_and_update(&buffer));
    assert!(!controller.is_active());
}

#[test]
fn test_watermark_thresholds() {
    let controller = BackpressureController::with_watermarks(50, 25);
    assert_eq!(controller.high_watermark(), 50);
    assert_eq!(controller.low_watermark(), 25);
}

#[test]
fn default_watermarks_and_clamping() {
    let controller = BackpressureController::new();
    assert_eq!(controller.high_watermark(), 80);
    assert_eq!(controller.low_watermark(), 40);
    assert!(!controller.is_active());
    let clamped = BackpressureController::with_watermarks(150, 120);
    assert_eq!(clamped.high_watermark(), 100);
    assert_eq!(clamped.low_watermark(), 100);
    let by_default = BackpressureController::default();
    assert_eq!(by_default.high_watermark(), 80);
}

#[test]
fn utilization_between_watermarks_keeps_the_state() {
    let mut controller = BackpressureController::with_watermarks(80, 40);
    let mut buffer = RingBuffer::new(10, OverflowPolicy::Block);
    for i in 0..6u8 {
        let _ = buffer.push(vec![i]);
    }
    // 60%: not yet active.
    assert!(!controller.check_and_update(&buffer));
    for i in 0..3u8 {
        let _ = buffer.push(vec![i]);
    }
    // 90%: active.
    assert!(controller.check_and_update(&buffer));
    for _ in 0..5 {
        let _ = buffer.pop();
    }
    // 40%: not below the low watermark, so still active, also when observed again.
    assert!(controller.check_and_update(&buffer));
    assert!(controller.check_and_update(&buffer));
    assert!(controller.is_active());
    let _ = buffer.pop();
    // 30%: released.
    assert!(!controller.check_and_update(&buffer));
    assert!(!controller.check_and_update(&buffer));
}

#[test]
fn signal_mirrors_the_state_and_reset_releases() {
    let mut controller = BackpressureController::with_watermarks(50, 10);
    let signal = controller.signal();
    assert!(!signal.is_active());
    let mut buffer = RingBuffer::new(2, OverflowPolicy::Block);
    let _ = buffer.push(vec![1]);
    assert!(controller.check_and_update(&buffer));
    assert!(signal.is_active());
    controller.reset();
    assert!(!controller.is_active());
    assert!(!signal.is_active());
}

#[test]
fn backoff_doubles_and_is_capped() {
    assert_eq!(backoff_micros(0), 1);
    assert_eq!(backoff_micros(3), 8);
    assert_eq!(backoff_micros(9), 512);
    assert_eq!(backoff_micros(10), 1000);
    assert_eq!(backoff_micros(25), 1000);
}

#[test]
fn after_reset_the_next_observation_uses_the_high_watermark() {
    let mut controller = BackpressureController::with_watermarks(80, 40);
    let mut buffer = RingBuffer::new(10, OverflowPolicy::Block);
    for i in 0..9u8 {
        let _ = buffer.push(vec![i]);
    }
    assert!(controller.check_and_update(&buffer));
    controller.reset();
    let signal = controller.signal();
    assert!(!signal.is_active());
    for _ in 0..3 {
        let _ = buffer.pop();
    }
    // 60%: above the low watermark, but inactive after the reset.
    assert!(!controller.check_and_update(&buffer));
    assert!(!signal.is_active());
    assert_eq!(controller.high_watermark(), 80);
}
