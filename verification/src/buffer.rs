//! The sample buffer shared by the capture callback and the worker.
//!
//! The buffer offers two operations only, `push` and `drain_if_ready`. There is
//! no way to look at its content without draining it, and a drain takes either
//! everything or nothing. The caller serialises the two operations with one
//! lock; the critical section of each is a single copy or move.
//!
//! The buffer has no upper bound: when the worker falls behind, the content
//! grows until the next drain.

use vstd::prelude::*;

verus! {

/// Content after the blocks of `blocks` were pushed, in order, onto `content`.
pub open spec fn pushed_all<T>(content: Seq<T>, blocks: Seq<Seq<T>>) -> Seq<T>
    decreases blocks.len(),
{
    if blocks.len() == 0 {
        content
    } else {
        pushed_all(content + blocks[0], blocks.drop_first())
    }
}

/// What a drain with threshold `min_samples` hands out of `content`:
/// everything once the threshold is reached, nothing before.
pub open spec fn drained_batch<T>(content: Seq<T>, min_samples: nat) -> Option<Seq<T>> {
    if content.len() < min_samples {
        None
    } else {
        Some(content)
    }
}

/// What a drain with threshold `min_samples` leaves behind of `content`.
pub open spec fn drained_rest<T>(content: Seq<T>, min_samples: nat) -> Seq<T> {
    if content.len() < min_samples {
        content
    } else {
        Seq::empty()
    }
}

/// Content after a series of worker rounds. In each round the blocks of the
/// round are pushed, then one drain with threshold `min_samples` is tried.
pub open spec fn after_rounds<T>(
    content: Seq<T>,
    rounds: Seq<Seq<Seq<T>>>,
    min_samples: nat,
) -> Seq<T>
    decreases rounds.len(),
{
    if rounds.len() == 0 {
        content
    } else {
        drained_rest(
            pushed_all(after_rounds(content, rounds.drop_last(), min_samples), rounds.last()),
            min_samples,
        )
    }
}

/// Samples captured since the last successful drain, in arrival order.
pub struct SampleBuffer<T> {
    samples: Vec<T>,
}

impl<T> View for SampleBuffer<T> {
    type V = Seq<T>;

    closed spec fn view(&self) -> Seq<T> {
        self.samples@
    }
}

impl<T: Copy> SampleBuffer<T> {
    /// An empty buffer.
    pub fn new() -> (buffer: Self)
        ensures
            buffer@ == Seq::<T>::empty(),
    {
        SampleBuffer { samples: Vec::new() }
    }

    /// Appends `samples` to the tail.
    pub fn push(&mut self, samples: &[T])
        ensures
            final(self)@ == old(self)@ + samples@,
    {
        let n = samples.len();
        let mut i: usize = 0;
        while i < n
            invariant
                n == samples@.len(),
                i <= n,
                self.samples@ == old(self).samples@ + samples@.subrange(0, i as int),
            decreases n - i,
        {
            self.samples.push(samples[i]);
            i += 1;
        }
    }

    /// Takes the whole content out once it holds at least `min_samples`
    /// samples, and leaves the buffer empty. Below the threshold the buffer is
    /// left as it is and `None` comes back; that is the expected state while
    /// the device is still filling a batch, not an error.
    pub fn drain_if_ready(&mut self, min_samples: usize) -> (batch: Option<Vec<T>>)
        ensures
            final(self)@ == drained_rest(old(self)@, min_samples as nat),
            match batch {
                Some(b) => drained_batch(old(self)@, min_samples as nat) == Some(b@),
                None => drained_batch(old(self)@, min_samples as nat) is None,
            },
    {
        if self.samples.len() < min_samples {
            return None;
        }
        let mut batch: Vec<T> = Vec::new();
        core::mem::swap(&mut self.samples, &mut batch);
        Some(batch)
    }
}

/// Pushing blocks one after another leaves their concatenation behind what
/// was there before.
pub proof fn lemma_pushed_all_is_concatenation<T>(content: Seq<T>, blocks: Seq<Seq<T>>)
    ensures
        pushed_all(content, blocks) == content + blocks.flatten(),
    decreases blocks.len(),
{
    if blocks.len() == 0 {
        assert(blocks.flatten() == Seq::<T>::empty());
        assert(content + Seq::<T>::empty() == content);
    } else {
        lemma_pushed_all_is_concatenation(content + blocks[0], blocks.drop_first());
        assert(blocks.flatten() == blocks[0] + blocks.drop_first().flatten());
        assert((content + blocks[0]) + blocks.drop_first().flatten() == content + (blocks[0]
            + blocks.drop_first().flatten()));
    }
}

/// After any pushes onto an empty buffer that reach the threshold, one drain
/// hands out every pushed sample in order and leaves the buffer empty, and a
/// drain that follows at once, with any positive threshold, hands out nothing.
pub proof fn lemma_drain_returns_everything_pushed<T>(
    blocks: Seq<Seq<T>>,
    min_samples: nat,
    next_min_samples: nat,
)
    requires
        blocks.flatten().len() >= min_samples,
        next_min_samples > 0,
    ensures
        drained_batch(pushed_all(Seq::empty(), blocks), min_samples) == Some(blocks.flatten()),
        drained_rest(pushed_all(Seq::empty(), blocks), min_samples) == Seq::<T>::empty(),
        drained_batch(
            drained_rest(pushed_all(Seq::empty(), blocks), min_samples),
            next_min_samples,
        ) is None,
{
    lemma_pushed_all_is_concatenation(Seq::<T>::empty(), blocks);
    assert(Seq::<T>::empty() + blocks.flatten() == blocks.flatten());
}

/// A drain below the threshold changes nothing: the content stays the same,
/// sample for sample, and nothing is handed out.
pub proof fn lemma_drain_below_threshold_keeps_content<T>(content: Seq<T>, min_samples: nat)
    requires
        content.len() < min_samples,
    ensures
        drained_rest(content, min_samples) == content,
        drained_rest(content, min_samples).len() == content.len(),
        drained_batch(content, min_samples) is None,
{
}

/// Samples pushed while the buffer stayed below the threshold are not lost:
/// the drain that finally succeeds hands out what was there before together
/// with every block pushed since, not only the latest one.
pub proof fn lemma_skipped_drains_lose_nothing<T>(
    content: Seq<T>,
    blocks: Seq<Seq<T>>,
    min_samples: nat,
)
    requires
        content.len() < min_samples,
        content.len() + blocks.flatten().len() >= min_samples,
    ensures
        drained_batch(pushed_all(drained_rest(content, min_samples), blocks), min_samples)
            == Some(content + blocks.flatten()),
{
    lemma_pushed_all_is_concatenation(content, blocks);
}

/// As long as the rounds together stay below the threshold, every drain is
/// skipped and the content is what was there at first followed by every
/// block of every round, in order.
pub proof fn lemma_rounds_below_threshold_accumulate<T>(
    content: Seq<T>,
    rounds: Seq<Seq<Seq<T>>>,
    min_samples: nat,
)
    requires
        content.len() + rounds.flatten().flatten().len() < min_samples,
    ensures
        after_rounds(content, rounds, min_samples) == content + rounds.flatten().flatten(),
    decreases rounds.len(),
{
    if rounds.len() == 0 {
        assert(rounds.flatten().flatten() == Seq::<T>::empty());
        assert(content + Seq::<T>::empty() == content);
    } else {
        let earlier = rounds.drop_last();
        let last = rounds.last();
        assert(rounds == earlier.push(last));
        earlier.lemma_flatten_push(last);
        vstd::seq_lib::lemma_flatten_concat(earlier.flatten(), last);
        assert(rounds.flatten().flatten() == earlier.flatten().flatten() + last.flatten());
        lemma_rounds_below_threshold_accumulate(content, earlier, min_samples);
        let before = after_rounds(content, earlier, min_samples);
        lemma_pushed_all_is_concatenation(before, last);
        assert((content + earlier.flatten().flatten()) + last.flatten() == content + (
        earlier.flatten().flatten() + last.flatten()));
    }
}

/// Rounds that were skipped lose nothing: when, after any number of rounds
/// below the threshold, a further round reaches it, its drain hands out
/// everything captured since the start, and leaves the buffer empty.
pub proof fn lemma_round_over_threshold_drains_all<T>(
    content: Seq<T>,
    skipped: Seq<Seq<Seq<T>>>,
    reaching: Seq<Seq<T>>,
    min_samples: nat,
)
    requires
        content.len() + skipped.flatten().flatten().len() < min_samples,
        content.len() + skipped.flatten().flatten().len() + reaching.flatten().len()
            >= min_samples,
    ensures
        drained_batch(
            pushed_all(after_rounds(content, skipped, min_samples), reaching),
            min_samples,
        ) == Some(content + skipped.flatten().flatten() + reaching.flatten()),
        after_rounds(content, skipped.push(reaching), min_samples) == Seq::<T>::empty(),
{
    lemma_rounds_below_threshold_accumulate(content, skipped, min_samples);
    lemma_pushed_all_is_concatenation(content + skipped.flatten().flatten(), reaching);
    assert(skipped.push(reaching).drop_last() == skipped);
}

} // verus!
