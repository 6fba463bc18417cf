use live_transcript::buffer::SampleBuffer;
use live_transcript::downmix::downmix;
use live_transcript::engine::RecognitionParams;
use live_transcript::transcript::Segment;
use live_transcript::worker::{start, step, Action, Event, WorkerConfig, WorkerState};

fn stereo_mean(frame: &[f32]) -> f32 {
    (frame[0] + frame[1]) * 0.5
}

/// Runs cycles until the worker has slept `cycles` times, with a recogniser
/// that answers every batch with `answer`. Returns how often the recogniser
/// was called, the batches it saw, and what was appended.
fn run_cycles(
    buffer: &mut SampleBuffer<f32>,
    pushes: Vec<Vec<f32>>,
    channel_count: usize,
    answer: fn(&[f32]) -> Option<Vec<Segment>>,
) -> (usize, Vec<Vec<f32>>, Vec<String>) {
    let config = WorkerConfig::standard();
    let first = start(&config);
    let mut state = first.state;
    let mut action = first.action;
    let mut pending = pushes.into_iter();
    let mut batch: Vec<f32> = Vec::new();
    let mut calls = 0;
    let mut seen = Vec::new();
    let mut appended = Vec::new();
    loop {
        let event = match action {
            Action::Sleep { seconds } => {
                assert_eq!(seconds, 3);
                match pending.next() {
                    Some(block) => buffer.push(&block),
                    None => return (calls, seen, appended),
                }
                Event::TimerElapsed
            }
            Action::AppendThenSleep { text, seconds } => {
                assert_eq!(seconds, 3);
                assert!(!text.is_empty());
                appended.push(text);
                match pending.next() {
                    Some(block) => buffer.push(&block),
                    None => return (calls, seen, appended),
                }
                Event::TimerElapsed
            }
            Action::Drain { min_samples } => match buffer.drain_if_ready(min_samples) {
                Some(drained) => {
                    batch = drained;
                    Event::BatchDrained
                }
                None => Event::BufferNotReady,
            },
            Action::Recognize => {
                let mono = downmix(std::mem::take(&mut batch), channel_count, stereo_mean);
                calls += 1;
                let event = match answer(&mono) {
                    Some(segments) => Event::EngineSucceeded(segments),
                    None => Event::EngineFailed,
                };
                seen.push(mono);
                event
            }
        };
        let next = step(&config, state, event).unwrap();
        state = next.state;
        action = next.action;
    }
}

fn silence(_: &[f32]) -> Option<Vec<Segment>> {
    Some(Vec::new())
}

fn greeting(_: &[f32]) -> Option<Vec<Segment>> {
    Some(vec![
        Segment { start_time: 0, end_time: 100, text: "こんにちは".to_string() },
        Segment { start_time: 100, end_time: 250, text: "ありがとうございました".to_string() },
    ])
}

fn failure(_: &[f32]) -> Option<Vec<Segment>> {
    None
}

#[test]
fn silent_batch_is_recognised_once_and_writes_nothing() {
    let mut buffer = SampleBuffer::new();
    let (calls, seen, appended) = run_cycles(&mut buffer, vec![vec![0.0; 16000]], 1, silence);
    assert_eq!(calls, 1);
    assert_eq!(seen, vec![vec![0.0f32; 16000]]);
    assert!(appended.is_empty());
    assert_eq!(buffer.drain_if_ready(1), None);
}

#[test]
fn cycles_below_threshold_skip_without_draining() {
    let mut buffer = SampleBuffer::new();
    let pushes = vec![vec![1.0f32; 1500], vec![2.0f32; 2500], vec![3.0f32; 4100]];
    let (calls, seen, appended) = run_cycles(&mut buffer, pushes, 1, silence);
    assert_eq!(calls, 1);
    assert_eq!(seen.len(), 1);
    assert_eq!(seen[0].len(), 8100);
    assert_eq!(&seen[0][..1500], &vec![1.0f32; 1500][..]);
    assert_eq!(&seen[0][1500..4000], &vec![2.0f32; 2500][..]);
    assert_eq!(&seen[0][4000..], &vec![3.0f32; 4100][..]);
    assert!(appended.is_empty());
}

#[test]
fn below_threshold_buffer_is_left_alone() {
    let mut buffer = SampleBuffer::new();
    let pushes = vec![vec![1.0f32; 1500], vec![2.0f32; 2500]];
    let (calls, _, appended) = run_cycles(&mut buffer, pushes, 1, greeting);
    assert_eq!(calls, 0);
    assert!(appended.is_empty());
    assert_eq!(buffer.drain_if_ready(4001), None);
    assert_eq!(buffer.drain_if_ready(4000).unwrap().len(), 4000);
}

#[test]
fn recognised_text_is_appended_once_per_cycle() {
    let mut buffer = SampleBuffer::new();
    let pushes = vec![vec![0.5f32; 8000], vec![0.5f32; 100], vec![0.5f32; 9000]];
    let (calls, seen, appended) = run_cycles(&mut buffer, pushes, 1, greeting);
    assert_eq!(calls, 2);
    assert_eq!(seen[0].len(), 8000);
    assert_eq!(seen[1].len(), 9100);
    assert_eq!(appended, vec!["こんにちは\n\n".to_string(), "こんにちは\n\n".to_string()]);
}

#[test]
fn stereo_batch_reaches_the_engine_downmixed() {
    let mut buffer = SampleBuffer::new();
    let mut block = Vec::new();
    for _ in 0..4000 {
        block.push(1.0f32);
        block.push(0.0f32);
    }
    let (calls, seen, _) = run_cycles(&mut buffer, vec![block], 2, silence);
    assert_eq!(calls, 1);
    assert_eq!(seen[0], vec![0.5f32; 4000]);
}

#[test]
fn engine_failure_does_not_stop_the_worker() {
    let mut buffer = SampleBuffer::new();
    let pushes = vec![vec![0.0f32; 8000], vec![0.0f32; 8000], vec![0.0f32; 8000]];
    let (calls, _, appended) = run_cycles(&mut buffer, pushes, 1, failure);
    assert_eq!(calls, 3);
    assert!(appended.is_empty());
}

#[test]
fn worker_starts_asleep() {
    let config = WorkerConfig { min_samples: 10, interval_seconds: 7 };
    let first = start(&config);
    assert_eq!(first.state, WorkerState::Idle);
    assert!(matches!(first.action, Action::Sleep { seconds: 7 }));
}

#[test]
fn standard_cadence() {
    let config = WorkerConfig::standard();
    assert_eq!(config.min_samples, 8000);
    assert_eq!(config.interval_seconds, 3);
}

#[test]
fn each_transition_of_the_cycle() {
    let config = WorkerConfig { min_samples: 42, interval_seconds: 5 };
    let next = step(&config, WorkerState::Idle, Event::TimerElapsed).unwrap();
    assert_eq!(next.state, WorkerState::Checking);
    assert!(matches!(next.action, Action::Drain { min_samples: 42 }));

    let next = step(&config, WorkerState::Checking, Event::BufferNotReady).unwrap();
    assert_eq!(next.state, WorkerState::Idle);
    assert!(matches!(next.action, Action::Sleep { seconds: 5 }));

    let next = step(&config, WorkerState::Checking, Event::BatchDrained).unwrap();
    assert_eq!(next.state, WorkerState::Processing);
    assert!(matches!(next.action, Action::Recognize));

    let next = step(&config, WorkerState::Processing, Event::EngineSucceeded(Vec::new())).unwrap();
    assert_eq!(next.state, WorkerState::Idle);
    assert!(matches!(next.action, Action::Sleep { seconds: 5 }));

    let next = step(&config, WorkerState::Processing, greeting(&[]).map(Event::EngineSucceeded).unwrap())
        .unwrap();
    assert_eq!(next.state, WorkerState::Idle);
    match next.action {
        Action::AppendThenSleep { text, seconds } => {
            assert_eq!(text, "こんにちは\n\n");
            assert_eq!(seconds, 5);
        }
        _ => panic!("segments must be appended"),
    }

    let next = step(&config, WorkerState::Processing, Event::EngineFailed).unwrap();
    assert_eq!(next.state, WorkerState::Idle);
    assert!(matches!(next.action, Action::Sleep { seconds: 5 }));
}

#[test]
fn events_out_of_place_are_refused() {
    let config = WorkerConfig::standard();
    assert!(step(&config, WorkerState::Idle, Event::BufferNotReady).is_none());
    assert!(step(&config, WorkerState::Idle, Event::BatchDrained).is_none());
    assert!(step(&config, WorkerState::Idle, Event::EngineSucceeded(Vec::new())).is_none());
    assert!(step(&config, WorkerState::Idle, Event::EngineFailed).is_none());
    assert!(step(&config, WorkerState::Checking, Event::TimerElapsed).is_none());
    assert!(step(&config, WorkerState::Checking, Event::EngineSucceeded(Vec::new())).is_none());
    assert!(step(&config, WorkerState::Checking, Event::EngineFailed).is_none());
    assert!(step(&config, WorkerState::Processing, Event::TimerElapsed).is_none());
    assert!(step(&config, WorkerState::Processing, Event::BufferNotReady).is_none());
    assert!(step(&config, WorkerState::Processing, Event::BatchDrained).is_none());
}

#[test]
fn fixed_recognition_parameters() {
    let params = RecognitionParams::for_language("ja".to_string());
    assert_eq!(params.best_of, 1);
    assert_eq!(params.no_speech_threshold_thousandths, 300);
    assert_eq!(params.temperature_thousandths, 0);
    assert_eq!(params.language, "ja");
    assert!(!params.print_special);
    assert!(!params.print_progress);
    assert!(!params.print_realtime);
    assert!(!params.print_timestamps);
}
