//! What the capture device reported when the stream was opened.
//!
//! The configuration is taken from the device as it is; nothing is forced on
//! it. It is fixed for the lifetime of a run.

use vstd::prelude::*;
use crate::downmix::frame_count;

verus! {

/// How the device encodes one sample.
#[derive(Clone, Copy, Debug, PartialEq, Eq, Structural)]
pub enum SampleFormat {
    Int8,
    Int16,
    Int32,
    Int64,
    Unsigned8,
    Unsigned16,
    Unsigned32,
    Unsigned64,
    Float32,
    Float64,
}

/// A negotiated capture configuration. Sample rate and channel count are
/// positive.
#[derive(Clone, Copy, Debug)]
pub struct CaptureConfig {
    sample_rate: u32,
    channel_count: u16,
    sample_format: SampleFormat,
}

impl CaptureConfig {
    #[verifier::type_invariant]
    spec fn positive(self) -> bool {
        self.sample_rate > 0 && self.channel_count > 0
    }

    /// The sample rate in Hz.
    pub closed spec fn rate(self) -> u32 {
        self.sample_rate
    }

    /// The number of interleaved channels.
    pub closed spec fn channels(self) -> u16 {
        self.channel_count
    }

    /// The sample encoding.
    pub closed spec fn format(self) -> SampleFormat {
        self.sample_format
    }

    /// Accepts what the device reported, unless the sample rate or the
    /// channel count is zero.
    pub fn new(sample_rate: u32, channel_count: u16, sample_format: SampleFormat) -> (config:
        Option<Self>)
        ensures
            config is Some <==> sample_rate > 0 && channel_count > 0,
            config matches Some(c) ==> c.rate() == sample_rate && c.channels() == channel_count
                && c.format() == sample_format,
    {
        if sample_rate == 0 || channel_count == 0 {
            None
        } else {
            Some(CaptureConfig { sample_rate, channel_count, sample_format })
        }
    }

    /// The sample rate in Hz.
    pub fn sample_rate(&self) -> (rate: u32)
        ensures
            rate == self.rate(),
            rate > 0,
    {
        proof {
            use_type_invariant(self);
        }
        self.sample_rate
    }

    /// The number of interleaved channels.
    pub fn channel_count(&self) -> (channels: u16)
        ensures
            channels == self.channels(),
            channels > 0,
    {
        proof {
            use_type_invariant(self);
        }
        self.channel_count
    }

    /// The sample encoding.
    pub fn sample_format(&self) -> (format: SampleFormat)
        ensures
            format == self.format(),
    {
        self.sample_format
    }

    /// Number of whole frames in a batch of `len` samples captured with this
    /// configuration.
    pub fn frames_in(&self, len: usize) -> (frames: usize)
        ensures
            frames == frame_count(len as nat, self.channels() as nat),
    {
        proof {
            use_type_invariant(self);
        }
        len / (self.channel_count as usize)
    }
}

} // verus!
