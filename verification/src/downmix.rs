//! Reducing an interleaved multi-channel batch to one channel.
//!
//! A batch holds its samples frame by frame, each frame one sample per
//! channel. The downmix turns every whole frame into one sample. How the
//! samples of a frame are combined (their arithmetic mean) is arithmetic on
//! the sample type and is supplied by the caller as `mix`; which samples form
//! a frame, how many frames come out and in what order is decided here.

use vstd::prelude::*;
use vstd::slice::slice_subrange;

verus! {

/// Number of whole frames in `len` interleaved samples of `channel_count`
/// channels. A trailing incomplete frame does not count.
pub open spec fn frame_count(len: nat, channel_count: nat) -> nat
    recommends
        channel_count > 0,
{
    len / channel_count
}

/// The samples of frame `index` of an interleaved batch.
pub open spec fn frame_of<T>(batch: Seq<T>, channel_count: nat, index: int) -> Seq<T>
    recommends
        channel_count > 0,
{
    batch.subrange(index * channel_count, index * channel_count + channel_count)
}

/// Whole frames of `channel_count` channels fit into a batch of `len` samples.
pub proof fn lemma_frame_in_bounds(len: nat, channel_count: nat, index: int)
    requires
        channel_count > 0,
        0 <= index < frame_count(len, channel_count),
    ensures
        0 <= index * channel_count,
        index * channel_count + channel_count <= len,
{
    assert(0 <= index * channel_count) by (nonlinear_arith)
        requires
            0 <= index,
            channel_count > 0,
    ;
    assert((index + 1) * channel_count <= (len / channel_count) * channel_count)
        by (nonlinear_arith)
        requires
            index + 1 <= len / channel_count,
            channel_count > 0,
    ;
    assert((len / channel_count) * channel_count <= len) by (nonlinear_arith)
        requires
            channel_count > 0,
    ;
    assert((index + 1) * channel_count == index * channel_count + channel_count)
        by (nonlinear_arith);
}

/// The frame count is the length divided by the channel count, rounded
/// down: an empty batch has no frame, the whole frames never reach past the
/// batch, and fewer samples than one frame are left over.
pub proof fn lemma_frame_count_rounds_down(len: nat, channel_count: nat)
    requires
        channel_count > 0,
    ensures
        frame_count(0, channel_count) == 0,
        frame_count(len, channel_count) * channel_count <= len,
        len < (frame_count(len, channel_count) + 1) * channel_count,
        len % channel_count == 0 ==> frame_count(len, channel_count) * channel_count == len,
{
    vstd::arithmetic::div_mod::lemma_fundamental_div_mod(len as int, channel_count as int);
    assert((len / channel_count) * channel_count == channel_count * (len / channel_count))
        by (nonlinear_arith);
    assert((len / channel_count + 1) * channel_count == (len / channel_count) * channel_count
        + channel_count) by (nonlinear_arith);
    assert(0 <= len % channel_count < channel_count);
}

/// Number of whole frames in a batch of `len` samples.
pub fn count_frames(len: usize, channel_count: usize) -> (frames: usize)
    requires
        channel_count > 0,
    ensures
        frames == frame_count(len as nat, channel_count as nat),
{
    len / channel_count
}

/// `mix` may be called on `frame`.
pub open spec fn accepts_frame<T, F: Fn(&[T]) -> T>(mix: F, frame: Seq<T>) -> bool {
    forall|samples: &[T]| samples@ == frame ==> call_requires(mix, (samples,))
}

/// `mixed` is a result of `mix` on `frame`.
pub open spec fn mixes_frame<T, F: Fn(&[T]) -> T>(mix: F, frame: Seq<T>, mixed: T) -> bool {
    exists|samples: &[T]| samples@ == frame && call_ensures(mix, (samples,), mixed)
}

/// Downmixes an interleaved batch to one channel.
///
/// With one channel the batch comes back unchanged and `mix` is not called.
/// With more, each whole frame is handed to `mix`, in order, and the results
/// form the output; a trailing incomplete frame is dropped, not padded.
pub fn downmix<T: Copy, F: Fn(&[T]) -> T>(batch: Vec<T>, channel_count: usize, mix: F) -> (mono:
    Vec<T>)
    requires
        channel_count > 0,
        channel_count > 1 ==> forall|index: int|
            0 <= index < frame_count(batch@.len(), channel_count as nat) ==> accepts_frame(
                mix,
                #[trigger] frame_of(batch@, channel_count as nat, index),
            ),
    ensures
        mono@.len() == frame_count(batch@.len(), channel_count as nat),
        channel_count == 1 ==> mono@ == batch@,
        channel_count > 1 ==> forall|index: int|
            0 <= index < mono@.len() ==> mixes_frame(
                mix,
                frame_of(batch@, channel_count as nat, index),
                #[trigger] mono@[index],
            ),
{
    if channel_count == 1 {
        return batch;
    }
    let samples = batch.as_slice();
    let n = samples.len();
    let frames = count_frames(n, channel_count);
    let mut mono: Vec<T> = Vec::new();
    let mut index: usize = 0;
    while index < frames
        invariant
            channel_count > 1,
            samples@ == batch@,
            n == batch@.len(),
            frames == frame_count(batch@.len(), channel_count as nat),
            index <= frames,
            mono@.len() == index,
            forall|k: int|
                0 <= k < frame_count(batch@.len(), channel_count as nat) ==> accepts_frame(
                    mix,
                    #[trigger] frame_of(batch@, channel_count as nat, k),
                ),
            forall|k: int|
                0 <= k < index ==> mixes_frame(
                    mix,
                    frame_of(batch@, channel_count as nat, k),
                    #[trigger] mono@[k],
                ),
        decreases frames - index,
    {
        proof {
            lemma_frame_in_bounds(batch@.len(), channel_count as nat, index as int);
        }
        let start = index * channel_count;
        let frame = slice_subrange(samples, start, start + channel_count);
        assert(frame@ == frame_of(batch@, channel_count as nat, index as int));
        let mixed = mix(frame);
        mono.push(mixed);
        index += 1;
    }
    mono
}

} // verus!
