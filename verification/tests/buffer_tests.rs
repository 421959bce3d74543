use stream_pipeline::{OverflowPolicy, PushOutcome, RingBuffer};

#[test]
fn test_buffer_push_pop() {
    let mut buffer = RingBuffer::new(10, OverflowPolicy::Block);
    assert!(buffer.push(vec![42]).is_ok());
    assert_eq!(buffer.pop(), Some(vec![42]));
    assert!(buffer.is_empty());
}

#[test]
fn test_buffer_utilization() {
    let mut buffer = RingBuffer::new(10, OverflowPolicy::Block);
    for i in 0..5u8 {
        let _ = buffer.push(vec![i]);
    }
    assert_eq!(buffer.utilization(), 50);
}

#[test]
fn buffer_test_drop_policy() {
    let mut buffer = RingBuffer::new(3, OverflowPolicy::DropOldest);
    let _ = buffer.push(vec![1]);
    let _ = buffer.push(vec![2]);
    let _ = buffer.push(vec![3]);
    let _ = buffer.push(vec![4]); // Should drop 1
    assert_eq!(buffer.dropped_count(), 1);
}

#[test]
fn test_block_policy() {
    let mut buffer = RingBuffer::new(2, OverflowPolicy::Block);
    assert!(buffer.push(vec![1]).is_ok());
    assert!(buffer.push(vec![2]).is_ok());
    // A third push would have to wait; once a message leaves it succeeds.
    let _ = buffer.pop();
    assert!(buffer.push(vec![3]).is_ok());
}

#[test]
fn test_capacity() {
    let buffer: RingBuffer = RingBuffer::new(42, OverflowPolicy::Block);
    assert_eq!(buffer.capacity(), 42);
}

#[test]
fn drop_oldest_keeps_the_newest_messages_in_order() {
    let mut buffer = RingBuffer::new(3, OverflowPolicy::DropOldest);
    for i in 1..=5u8 {
        assert!(buffer.push(vec![i]).is_ok());
    }
    assert_eq!(buffer.len(), 3);
    assert_eq!(buffer.dropped_count(), 2);
    assert_eq!(buffer.block_count(), 0);
    assert_eq!(buffer.pop(), Some(vec![3]));
    assert_eq!(buffer.pop(), Some(vec![4]));
    assert_eq!(buffer.pop(), Some(vec![5]));
    assert_eq!(buffer.pop(), None);
}

#[test]
fn block_makes_the_producer_wait_when_full() {
    let mut buffer = RingBuffer::new(2, OverflowPolicy::Block);
    assert!(buffer.push(vec![1]).is_ok());
    assert!(matches!(buffer.offer(vec![2]), PushOutcome::Pushed));
    assert!(matches!(buffer.offer(vec![3, 3]), PushOutcome::Wait(m) if m == vec![3, 3]));
    assert_eq!(buffer.block_count(), 1);
    assert_eq!(buffer.dropped_count(), 0);
    assert_eq!(buffer.len(), 2);
    // Retrying while still full counts nothing.
    assert!(matches!(buffer.try_push(vec![3, 3]), PushOutcome::Wait(m) if m == vec![3, 3]));
    assert_eq!(buffer.block_count(), 1);
    assert_eq!(buffer.pop(), Some(vec![1]));
    assert!(matches!(buffer.try_push(vec![3, 3]), PushOutcome::Pushed));
    assert_eq!(buffer.pop(), Some(vec![2]));
    assert_eq!(buffer.pop(), Some(vec![3, 3]));
    assert!(buffer.is_empty());
}

#[test]
fn drop_oldest_offer_never_waits() {
    let mut buffer = RingBuffer::new(1, OverflowPolicy::DropOldest);
    assert!(matches!(buffer.offer(vec![1]), PushOutcome::Pushed));
    assert!(matches!(buffer.offer(vec![2]), PushOutcome::Pushed));
    assert_eq!(buffer.dropped_count(), 1);
    assert_eq!(buffer.block_count(), 0);
    assert_eq!(buffer.pop(), Some(vec![2]));
}

#[test]
fn messages_leave_in_the_order_they_came() {
    let mut buffer = RingBuffer::new(4, OverflowPolicy::Block);
    assert!(buffer.push(vec![10]).is_ok());
    assert!(buffer.push(vec![20, 21]).is_ok());
    assert_eq!(buffer.pop(), Some(vec![10]));
    assert!(buffer.push(vec![30]).is_ok());
    assert_eq!(buffer.pop(), Some(vec![20, 21]));
    assert_eq!(buffer.pop(), Some(vec![30]));
    assert_eq!(buffer.pop(), None);
}

#[test]
fn utilization_rounds_down_and_reaches_one_hundred() {
    let mut buffer = RingBuffer::new(3, OverflowPolicy::Block);
    assert_eq!(buffer.utilization(), 0);
    let _ = buffer.push(vec![1]);
    let _ = buffer.push(vec![2]);
    assert_eq!(buffer.utilization(), 66);
    let _ = buffer.push(vec![3]);
    assert_eq!(buffer.utilization(), 100);
}

#[test]
fn reset_counters_keeps_messages() {
    let mut buffer = RingBuffer::new(1, OverflowPolicy::DropOldest);
    let _ = buffer.push(vec![1]);
    let _ = buffer.push(vec![2]);
    assert_eq!(buffer.dropped_count(), 1);
    buffer.reset_counters();
    assert_eq!(buffer.dropped_count(), 0);
    assert_eq!(buffer.block_count(), 0);
    assert_eq!(buffer.pop(), Some(vec![2]));
}
