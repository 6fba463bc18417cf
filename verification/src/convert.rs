//! Bookkeeping of the file converter: channel counts and the order of samples.
//!
//! A decoder hands out audio plane by plane, one plane per channel; a WAV
//! file wants it frame by frame. Decoding, scaling of samples and writing are
//! the caller's part. Which channels are kept, when a file counts as empty
//! and in what order the samples are written is decided here, for any sample
//! type.

use vstd::prelude::*;

verus! {

/// Why a file cannot be converted.
#[derive(Clone, Copy, Debug, PartialEq, Eq, Structural)]
pub enum ConvertError {
    /// The track declares a channel layout without any channel.
    NoChannels,
    /// Decoding produced no sample.
    NoAudioData,
    /// The decoder hands out samples of a kind that is not converted.
    UnsupportedFormat,
}

/// The kinds of sample a decoder may hand out.
#[derive(Clone, Copy, Debug, PartialEq, Eq, Structural)]
pub enum DecodedFormat {
    Unsigned8,
    Unsigned16,
    Unsigned24,
    Unsigned32,
    Signed8,
    Signed16,
    Signed24,
    Signed32,
    Float32,
    Float64,
}

/// The number by which a decoded sample is divided to bring it to the range
/// of a 32-bit floating-point sample; `None` for the kinds that are not
/// converted. Floating-point samples are taken as they are.
pub open spec fn scale_of(format: DecodedFormat) -> Option<u32> {
    match format {
        DecodedFormat::Float32 => Some(1u32),
        DecodedFormat::Unsigned16 | DecodedFormat::Signed16 => Some(32768u32),
        DecodedFormat::Signed32 => Some(2147483648u32),
        _ => None,
    }
}

/// Tells whether samples of the kind `format` are converted, and by what
/// they are divided.
pub fn sample_scale(format: DecodedFormat) -> (scale: Result<u32, ConvertError>)
    ensures
        scale == match scale_of(format) {
            Some(divisor) => Ok::<u32, ConvertError>(divisor),
            None => Err(ConvertError::UnsupportedFormat),
        },
{
    match format {
        DecodedFormat::Float32 => Ok(1),
        DecodedFormat::Unsigned16 | DecodedFormat::Signed16 => Ok(32768),
        DecodedFormat::Signed32 => Ok(2147483648),
        _ => Err(ConvertError::UnsupportedFormat),
    }
}

/// The channel count of the output for the count a track reports.
///
/// A track that reports nothing is taken as mono. A reported count of zero is
/// an error. Any other count is cut to 16 bits, which is what a WAV header
/// holds.
pub fn resolve_channel_count(reported: Option<usize>) -> (channels: Result<u16, ConvertError>)
    ensures
        channels == match reported {
            None => Ok::<u16, ConvertError>(1),
            Some(count) => if count == 0 {
                Err(ConvertError::NoChannels)
            } else {
                Ok(count as u16)
            },
        },
{
    match reported {
        None => Ok(1),
        Some(count) => {
            if count == 0 {
                Err(ConvertError::NoChannels)
            } else {
                Ok(#[verifier::truncate] (count as u16))
            }
        },
    }
}

/// What is fixed about a conversion before the first packet is decoded.
#[derive(Clone, Copy, Debug, PartialEq, Eq, Structural)]
pub struct ConversionPlan {
    /// Channels of the output.
    pub channels: u16,
    /// Sample rate of the input in Hz.
    pub input_rate: u32,
    /// Sample rate of the output in Hz.
    pub output_rate: u32,
    /// Width of an output sample; the samples are signed integers.
    pub bits_per_sample: u16,
}

/// The plan for a track that reports `channels` channels and the sample rate
/// `sample_rate`: no channel at all is an error, no layout means mono, no
/// rate means 44100 Hz; the output keeps the rate of the input and holds
/// 16-bit samples.
pub open spec fn planned(channels: Option<usize>, sample_rate: Option<u32>) -> Result<
    ConversionPlan,
    ConvertError,
> {
    if channels == Some(0usize) {
        Err(ConvertError::NoChannels)
    } else {
        let rate = match sample_rate {
            Some(rate) => rate,
            None => 44100u32,
        };
        Ok(
            ConversionPlan {
                channels: match channels {
                    Some(count) => count as u16,
                    None => 1u16,
                },
                input_rate: rate,
                output_rate: rate,
                bits_per_sample: 16,
            },
        )
    }
}

/// Plans the conversion of a track from what its header reports.
pub fn plan_conversion(channels: Option<usize>, sample_rate: Option<u32>) -> (plan: Result<
    ConversionPlan,
    ConvertError,
>)
    ensures
        plan == planned(channels, sample_rate),
{
    let channels = match resolve_channel_count(channels) {
        Ok(channels) => channels,
        Err(error) => {
            return Err(error);
        },
    };
    let rate = match sample_rate {
        Some(rate) => rate,
        None => 44100,
    };
    Ok(ConversionPlan { channels, input_rate: rate, output_rate: rate, bits_per_sample: 16 })
}

impl ConversionPlan {
    /// Tells whether the samples have to be resampled on the way.
    pub fn needs_resampling(&self) -> (needed: bool)
        ensures
            needed == (self.input_rate != self.output_rate),
    {
        self.input_rate != self.output_rate
    }
}

/// A planned conversion never resamples: the output keeps the rate of the
/// input.
pub proof fn lemma_planned_rate_is_kept(channels: Option<usize>, sample_rate: Option<u32>)
    ensures
        planned(channels, sample_rate) matches Ok(plan) ==> plan.input_rate == plan.output_rate,
{
}

/// The contents of a list of planes.
pub open spec fn plane_views<T>(planes: Seq<Vec<T>>) -> Seq<Seq<T>> {
    planes.map_values(|plane: Vec<T>| plane@)
}

/// The planes after the samples of one decoded packet were added: plane by
/// plane, as far as both sides have that plane.
pub open spec fn planes_extended<T>(planes: Seq<Seq<T>>, decoded: Seq<Seq<T>>) -> Seq<Seq<T>> {
    Seq::new(
        planes.len(),
        |channel: int|
            if channel < decoded.len() {
                planes[channel] + decoded[channel]
            } else {
                planes[channel]
            },
    )
}

/// Adds the samples of one decoded packet to the collected planes. Channels
/// that the packet has beyond those collected are ignored; planes for which
/// the packet has no channel stay as they are.
pub fn extend_planes<T: Copy>(planes: &mut Vec<Vec<T>>, decoded: &Vec<Vec<T>>)
    ensures
        plane_views(final(planes)@) == planes_extended(
            plane_views(old(planes)@),
            plane_views(decoded@),
        ),
{
    let ghost before = plane_views(planes@);
    let ghost after = planes_extended(before, plane_views(decoded@));
    let count = planes.len();
    let mut channel: usize = 0;
    while channel < count && channel < decoded.len()
        invariant
            before == plane_views(old(planes)@),
            after == planes_extended(before, plane_views(decoded@)),
            count == planes@.len(),
            count == before.len(),
            channel <= count,
            channel <= decoded@.len(),
            forall|c: int| 0 <= c < channel ==> (#[trigger] planes@[c])@ == after[c],
            forall|c: int| channel <= c < count ==> (#[trigger] planes@[c])@ == before[c],
        decreases count - channel,
    {
        let source = &decoded[channel];
        let mut i: usize = 0;
        while i < source.len()
            invariant
                count == planes@.len(),
                channel < count,
                i <= source@.len(),
                planes@[channel as int]@ == before[channel as int] + source@.take(i as int),
                forall|c: int| 0 <= c < channel ==> (#[trigger] planes@[c])@ == after[c],
                forall|c: int| channel < c < count ==> (#[trigger] planes@[c])@ == before[c],
            decreases source@.len() - i,
        {
            planes[channel].push(source[i]);
            i += 1;
        }
        assert(source@.take(source@.len() as int) == source@);
        assert(plane_views(decoded@)[channel as int] == source@);
        channel += 1;
    }
    assert(plane_views(planes@) =~= after);
}

/// The samples of `planes` frame by frame: all channels of the first frame,
/// then all channels of the second, and so on. The first plane says how many
/// frames there are.
pub open spec fn interleaved<T>(planes: Seq<Seq<T>>) -> Seq<T>
    recommends
        planes.len() > 0,
        forall|c: int| 0 <= c < planes.len() ==> (#[trigger] planes[c]).len() >= planes[0].len(),
{
    Seq::new(
        planes[0].len() * planes.len(),
        |i: int| planes[i % (planes.len() as int)][i / (planes.len() as int)],
    )
}

/// Sample `channel` of frame `frame` stands at `frame * channels + channel`.
pub proof fn lemma_interleaved_position<T>(planes: Seq<Seq<T>>, frame: int, channel: int)
    requires
        0 <= frame < planes[0].len(),
        0 <= channel < planes.len(),
    ensures
        0 <= frame * planes.len() + channel < interleaved(planes).len(),
        interleaved(planes)[frame * planes.len() + channel] == planes[channel][frame],
{
    let count = planes.len() as int;
    let at = frame * count + channel;
    assert(0 <= at < planes[0].len() * count) by (nonlinear_arith)
        requires
            0 <= frame < planes[0].len(),
            0 <= channel < count,
            at == frame * count + channel,
    ;
    vstd::arithmetic::div_mod::lemma_fundamental_div_mod_converse(at, count, frame, channel);
}

/// Brings collected planes into the order of a WAV file.
///
/// Fails with `NoAudioData` when there is no plane or the first plane is
/// empty. No plane may be shorter than the first.
pub fn interleave<T: Copy>(planes: &Vec<Vec<T>>) -> (samples: Result<Vec<T>, ConvertError>)
    requires
        forall|c: int| 0 <= c < planes@.len() ==> (#[trigger] planes@[c])@.len() >= planes@[0]@.len(),
    ensures
        samples is Err <==> planes@.len() == 0 || planes@[0]@.len() == 0,
        samples matches Err(e) ==> e == ConvertError::NoAudioData,
        samples matches Ok(s) ==> s@ == interleaved(plane_views(planes@)),
{
    if planes.len() == 0 || planes[0].len() == 0 {
        return Err(ConvertError::NoAudioData);
    }
    let ghost all = plane_views(planes@);
    let count = planes.len();
    let frames = planes[0].len();
    let mut samples: Vec<T> = Vec::new();
    let mut frame: usize = 0;
    while frame < frames
        invariant
            all == plane_views(planes@),
            count == planes@.len(),
            count > 0,
            frames == planes@[0]@.len(),
            frame <= frames,
            forall|c: int|
                0 <= c < planes@.len() ==> (#[trigger] planes@[c])@.len() >= planes@[0]@.len(),
            samples@.len() == frame * count,
            forall|i: int| 0 <= i < samples@.len() ==> samples@[i] == interleaved(all)[i],
        decreases frames - frame,
    {
        let mut channel: usize = 0;
        while channel < count
            invariant
                all == plane_views(planes@),
                count == planes@.len(),
                frames == planes@[0]@.len(),
                frame < frames,
                channel <= count,
                forall|c: int|
                    0 <= c < planes@.len() ==> (#[trigger] planes@[c])@.len()
                        >= planes@[0]@.len(),
                samples@.len() == frame * count + channel,
                forall|i: int| 0 <= i < samples@.len() ==> samples@[i] == interleaved(all)[i],
            decreases count - channel,
        {
            proof {
                assert(all[0] == planes@[0]@);
                assert(all[channel as int] == planes@[channel as int]@);
                lemma_interleaved_position(all, frame as int, channel as int);
            }
            samples.push(planes[channel][frame]);
            channel += 1;
        }
        assert((frame + 1) * count == frame * count + count) by (nonlinear_arith);
        frame += 1;
    }
    assert(all[0] == planes@[0]@);
    assert(samples@ =~= interleaved(all));
    Ok(samples)
}

} // verus!
