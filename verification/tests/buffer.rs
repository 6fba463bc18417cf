use live_transcript::buffer::SampleBuffer;

#[test]
fn new_buffer_is_not_ready() {
    let mut buffer: SampleBuffer<f32> = SampleBuffer::new();
    assert_eq!(buffer.drain_if_ready(1), None);
}

#[test]
fn drain_returns_all_pushes_in_order() {
    let mut buffer: SampleBuffer<f32> = SampleBuffer::new();
    buffer.push(&[0.1, 0.2]);
    buffer.push(&[]);
    buffer.push(&[0.3]);
    buffer.push(&[0.4, 0.5, 0.6]);
    assert_eq!(buffer.drain_if_ready(6), Some(vec![0.1, 0.2, 0.3, 0.4, 0.5, 0.6]));
}

#[test]
fn drain_leaves_buffer_empty() {
    let mut buffer: SampleBuffer<i16> = SampleBuffer::new();
    buffer.push(&[1, 2, 3]);
    assert_eq!(buffer.drain_if_ready(2), Some(vec![1, 2, 3]));
    assert_eq!(buffer.drain_if_ready(1), None);
    assert_eq!(buffer.drain_if_ready(usize::MAX), None);
    buffer.push(&[4]);
    assert_eq!(buffer.drain_if_ready(1), Some(vec![4]));
}

#[test]
fn drain_below_threshold_changes_nothing() {
    let mut buffer: SampleBuffer<i16> = SampleBuffer::new();
    buffer.push(&[7, 8, 9]);
    assert_eq!(buffer.drain_if_ready(4), None);
    assert_eq!(buffer.drain_if_ready(4), None);
    // what is there now is what was there before
    assert_eq!(buffer.drain_if_ready(3), Some(vec![7, 8, 9]));
}

#[test]
fn drain_at_exact_threshold_succeeds() {
    let mut buffer: SampleBuffer<u8> = SampleBuffer::new();
    buffer.push(&[1, 2, 3, 4]);
    assert_eq!(buffer.drain_if_ready(5), None);
    assert_eq!(buffer.drain_if_ready(4), Some(vec![1, 2, 3, 4]));
}

#[test]
fn zero_threshold_drains_an_empty_buffer() {
    let mut buffer: SampleBuffer<u8> = SampleBuffer::new();
    assert_eq!(buffer.drain_if_ready(0), Some(vec![]));
}

#[test]
fn skipped_cycles_keep_every_sample() {
    let mut buffer: SampleBuffer<f32> = SampleBuffer::new();
    let first: Vec<f32> = (0..1500).map(|i| i as f32).collect();
    let second: Vec<f32> = (1500..4000).map(|i| i as f32).collect();
    let third: Vec<f32> = (4000..8200).map(|i| i as f32).collect();
    buffer.push(&first);
    assert_eq!(buffer.drain_if_ready(8000), None);
    buffer.push(&second);
    assert_eq!(buffer.drain_if_ready(8000), None);
    buffer.push(&third);
    let batch = buffer.drain_if_ready(8000).unwrap();
    let expected: Vec<f32> = (0..8200).map(|i| i as f32).collect();
    assert_eq!(batch.len(), 8200);
    assert_eq!(batch, expected);
    assert_eq!(buffer.drain_if_ready(1), None);
}
