//! The transcription worker's decisions.
//!
//! The worker is a loop without an end: it sleeps, looks whether the buffer
//! holds a batch, has the batch recognised, and appends what was recognised to
//! the transcript. Sleeping, locking, calling the recogniser and writing are
//! the caller's part. After each of them the caller reports what happened as
//! an [`Event`], and [`step`] answers with the next state and the next thing
//! to do.

use vstd::prelude::*;
use crate::transcript::{
    accumulate, lemma_transcript_holds_a_line_per_segment, segment_texts, transcript_of, Segment,
};

verus! {

/// Where the worker stands in its cycle.
#[derive(Clone, Copy, Debug, PartialEq, Eq, Structural)]
pub enum WorkerState {
    /// Sleeping until the next cycle.
    Idle,
    /// Asking the buffer for a batch.
    Checking,
    /// A batch was drained and is with the recogniser.
    Processing,
}

/// What the caller reports after it did what it was told.
pub enum Event {
    /// The sleep is over.
    TimerElapsed,
    /// The buffer held fewer samples than the minimum; it was left as it was.
    BufferNotReady,
    /// The buffer was drained.
    BatchDrained,
    /// The recogniser returned these segments, in chronological order.
    EngineSucceeded(Vec<Segment>),
    /// The recogniser failed on the batch. The batch is lost; it is not
    /// tried again.
    EngineFailed,
}

/// What the caller has to do next.
pub enum Action {
    /// Sleep for the interval, then report `TimerElapsed`.
    Sleep { seconds: u64 },
    /// Drain the buffer if it holds at least `min_samples` samples, then
    /// report `BatchDrained` or `BufferNotReady`.
    Drain { min_samples: usize },
    /// Downmix the drained batch and hand it to the recogniser, then report
    /// `EngineSucceeded` or `EngineFailed`.
    Recognize,
    /// Append `text` to the transcript and flush it, then go on as for
    /// `Sleep`.
    AppendThenSleep { text: String, seconds: u64 },
}

/// An action as contracts see it.
pub enum ActionView {
    Sleep { seconds: u64 },
    Drain { min_samples: usize },
    Recognize,
    AppendThenSleep { text: Seq<char>, seconds: u64 },
}

impl View for Action {
    type V = ActionView;

    open spec fn view(&self) -> ActionView {
        match *self {
            Action::Sleep { seconds } => ActionView::Sleep { seconds },
            Action::Drain { min_samples } => ActionView::Drain { min_samples },
            Action::Recognize => ActionView::Recognize,
            Action::AppendThenSleep { text, seconds } => ActionView::AppendThenSleep {
                text: text@,
                seconds,
            },
        }
    }
}

/// The two constants of the worker's cadence.
#[derive(Clone, Copy, Debug)]
pub struct WorkerConfig {
    /// Fewest samples that make a batch.
    pub min_samples: usize,
    /// Length of the sleep between two cycles, in seconds.
    pub interval_seconds: u64,
}

/// A state together with the action that leads out of it.
pub struct Transition {
    pub state: WorkerState,
    pub action: Action,
}

/// The state that follows `state` on `event`; `None` where the event cannot
/// come in that state.
pub open spec fn next_state(state: WorkerState, event: Event) -> Option<WorkerState> {
    match (state, event) {
        (WorkerState::Idle, Event::TimerElapsed) => Some(WorkerState::Checking),
        (WorkerState::Checking, Event::BufferNotReady) => Some(WorkerState::Idle),
        (WorkerState::Checking, Event::BatchDrained) => Some(WorkerState::Processing),
        (WorkerState::Processing, Event::EngineSucceeded(_)) => Some(WorkerState::Idle),
        (WorkerState::Processing, Event::EngineFailed) => Some(WorkerState::Idle),
        _ => None,
    }
}

/// The action that `event` calls for, where it can come in `state`.
pub open spec fn next_action(config: WorkerConfig, state: WorkerState, event: Event) -> ActionView
    recommends
        next_state(state, event) is Some,
{
    match event {
        Event::TimerElapsed => ActionView::Drain { min_samples: config.min_samples },
        Event::BatchDrained => ActionView::Recognize,
        Event::EngineSucceeded(segments) => if segments@.len() == 0 {
            ActionView::Sleep { seconds: config.interval_seconds }
        } else {
            ActionView::AppendThenSleep {
                text: transcript_of(segment_texts(segments@)),
                seconds: config.interval_seconds,
            }
        },
        Event::BufferNotReady | Event::EngineFailed => ActionView::Sleep {
            seconds: config.interval_seconds,
        },
    }
}

impl WorkerConfig {
    /// The cadence of the live pipeline: batches of at least 8000 samples,
    /// looked for every 3 seconds.
    pub fn standard() -> (config: Self)
        ensures
            config.min_samples == 8000,
            config.interval_seconds == 3,
    {
        WorkerConfig { min_samples: 8000, interval_seconds: 3 }
    }
}

/// The worker's first move: it starts asleep.
pub fn start(config: &WorkerConfig) -> (first: Transition)
    ensures
        first.state == WorkerState::Idle,
        first.action@ == (ActionView::Sleep { seconds: config.interval_seconds }),
{
    Transition {
        state: WorkerState::Idle,
        action: Action::Sleep { seconds: config.interval_seconds },
    }
}

/// Decides what follows `event` in `state`.
///
/// An event that cannot come in `state` is refused with `None`; the caller
/// keeps its state. A failure of the recogniser is an event like any other:
/// the worker goes back to sleep and the next cycle proceeds on new audio.
pub fn step(config: &WorkerConfig, state: WorkerState, event: Event) -> (next: Option<Transition>)
    ensures
        match next {
            Some(transition) => {
                &&& next_state(state, event) == Some(transition.state)
                &&& transition.action@ == next_action(*config, state, event)
            },
            None => next_state(state, event) is None,
        },
{
    let seconds = config.interval_seconds;
    match (state, event) {
        (WorkerState::Idle, Event::TimerElapsed) => Some(
            Transition {
                state: WorkerState::Checking,
                action: Action::Drain { min_samples: config.min_samples },
            },
        ),
        (WorkerState::Checking, Event::BufferNotReady) => Some(
            Transition { state: WorkerState::Idle, action: Action::Sleep { seconds } },
        ),
        (WorkerState::Checking, Event::BatchDrained) => Some(
            Transition { state: WorkerState::Processing, action: Action::Recognize },
        ),
        (WorkerState::Processing, Event::EngineSucceeded(segments)) => {
            if segments.len() == 0 {
                Some(Transition { state: WorkerState::Idle, action: Action::Sleep { seconds } })
            } else {
                let text = accumulate(&segments);
                Some(
                    Transition {
                        state: WorkerState::Idle,
                        action: Action::AppendThenSleep { text, seconds },
                    },
                )
            }
        },
        (WorkerState::Processing, Event::EngineFailed) => Some(
            Transition { state: WorkerState::Idle, action: Action::Sleep { seconds } },
        ),
        _ => None,
    }
}

/// No state is final: in each state some event leads on.
pub proof fn lemma_no_state_is_final(state: WorkerState)
    ensures
        exists|event: Event| (#[trigger] next_state(state, event)) is Some,
{
    match state {
        WorkerState::Idle => {
            assert(next_state(state, Event::TimerElapsed) is Some);
        },
        WorkerState::Checking => {
            assert(next_state(state, Event::BufferNotReady) is Some);
        },
        WorkerState::Processing => {
            assert(next_state(state, Event::EngineFailed) is Some);
        },
    }
}

/// The recogniser is called for a drained batch and for nothing else: once
/// for each cycle that drains, never for a cycle that finds the buffer not
/// ready.
pub proof fn lemma_recognition_follows_a_drain(
    config: WorkerConfig,
    state: WorkerState,
    event: Event,
)
    requires
        next_state(state, event) is Some,
    ensures
        next_action(config, state, event) is Recognize <==> event is BatchDrained,
        event is BatchDrained ==> state == WorkerState::Checking && next_state(state, event)
            == Some(WorkerState::Processing),
        event is BufferNotReady ==> next_action(config, state, event) == (ActionView::Sleep {
            seconds: config.interval_seconds,
        }) && next_state(state, event) == Some(WorkerState::Idle),
{
}

/// The transcript is written to exactly when the recogniser returned at
/// least one segment, and what is written is then not empty.
pub proof fn lemma_append_needs_a_segment(config: WorkerConfig, state: WorkerState, event: Event)
    requires
        next_state(state, event) is Some,
    ensures
        next_action(config, state, event) is AppendThenSleep <==> (event matches
            Event::EngineSucceeded(segments) && segments@.len() > 0),
        next_action(config, state, event) matches ActionView::AppendThenSleep { text, .. }
            ==> text.len() > 0,
{
    if let Event::EngineSucceeded(segments) = event {
        lemma_transcript_holds_a_line_per_segment(segment_texts(segments@));
    }
}

/// A failure of the recogniser does not end the worker: it goes back to
/// sleep, writes nothing, and the next cycle starts as any other.
pub proof fn lemma_failure_is_survived(config: WorkerConfig)
    ensures
        next_state(WorkerState::Processing, Event::EngineFailed) == Some(WorkerState::Idle),
        next_action(config, WorkerState::Processing, Event::EngineFailed) == (ActionView::Sleep {
            seconds: config.interval_seconds,
        }),
        next_state(WorkerState::Idle, Event::TimerElapsed) == Some(WorkerState::Checking),
{
}

/// Every cycle comes back to `Idle`: from `Idle`, the second or the third
/// accepted event ends it.
pub proof fn lemma_cycle_returns_to_idle(first: Event, second: Event, third: Event)
    requires
        next_state(WorkerState::Idle, first) is Some,
        next_state(next_state(WorkerState::Idle, first)->0, second) is Some,
    ensures
        ({
            let after_second = next_state(next_state(WorkerState::Idle, first)->0, second)->0;
            after_second == WorkerState::Idle || (next_state(after_second, third) is Some
                ==> next_state(after_second, third) == Some(WorkerState::Idle))
        }),
{
}

} // verus!
