//! Preparing recorded audio for the speech recogniser: which files it takes,
//! and the folding of stereo to mono.

use vstd::prelude::*;

use crate::format::WavSpec;

verus! {

/// The only sample rate, in Hz, that the recogniser takes.
pub const RECOGNISER_SAMPLE_RATE: u32 = 16000;

/// Why an audio file cannot be handed to the recogniser.
#[derive(Debug, Clone, Copy, PartialEq, Eq, Structural)]
pub enum WavLoadError {
    /// The file has this sample rate, not 16 kHz.
    WrongSampleRate(u32),
    /// The file has this bit depth, neither 16 nor 32.
    UnsupportedBitDepth(u16),
    /// The file has this channel count, neither one nor two.
    UnsupportedChannelCount(u16),
}

/// How the samples of a file are to be read.
#[derive(Debug, Clone, Copy, PartialEq, Eq, Structural)]
pub enum SampleDecoding {
    /// As signed 16-bit integers, to be scaled to the unit range.
    Int16,
    /// As 32-bit floating point, as they are.
    Float32,
}

/// What `check_wav_format` answers for a header.
pub open spec fn format_check(spec: WavSpec) -> Result<SampleDecoding, WavLoadError> {
    if spec.sample_rate != RECOGNISER_SAMPLE_RATE {
        Err(WavLoadError::WrongSampleRate(spec.sample_rate))
    } else if spec.bits_per_sample == 16 {
        Ok(SampleDecoding::Int16)
    } else if spec.bits_per_sample == 32 {
        Ok(SampleDecoding::Float32)
    } else {
        Err(WavLoadError::UnsupportedBitDepth(spec.bits_per_sample))
    }
}

/// Decides from the header of a file how its samples are to be read, or
/// refuses the file: the rate must be 16 kHz, and the depth 16 or 32 bits.
/// A wrong rate is reported before a wrong depth.
pub fn check_wav_format(spec: &WavSpec) -> (decoding: Result<SampleDecoding, WavLoadError>)
    ensures
        decoding == format_check(*spec),
{
    if spec.sample_rate != RECOGNISER_SAMPLE_RATE {
        return Err(WavLoadError::WrongSampleRate(spec.sample_rate));
    }
    if spec.bits_per_sample == 16 {
        Ok(SampleDecoding::Int16)
    } else if spec.bits_per_sample == 32 {
        Ok(SampleDecoding::Float32)
    } else {
        Err(WavLoadError::UnsupportedBitDepth(spec.bits_per_sample))
    }
}

/// Brings interleaved audio of one or two channels to mono.
///
/// Mono audio is returned as it is. Of stereo audio each complete pair of
/// left and right sample is handed to `average`, and the answers, in order,
/// are the result; a last sample without partner is dropped.
///
/// Fails with `UnsupportedChannelCount` for any other channel count.
pub fn fold_to_mono<T: Copy, F: Fn(T, T) -> T>(channels: u16, audio: Vec<T>, average: F) -> (mono:
    Result<Vec<T>, WavLoadError>)
    requires
        forall|left: T, right: T| call_requires(average, (left, right)),
    ensures
        channels == 1 ==> mono == Ok::<Vec<T>, WavLoadError>(audio),
        channels == 2 ==> (mono matches Ok(v) && v.len() == audio.len() / 2 && forall|i: int|
            0 <= i < v.len() ==> call_ensures(
                average,
                (audio[2 * i], audio[2 * i + 1]),
                #[trigger] v[i],
            )),
        channels != 1 && channels != 2 ==> mono == Err::<Vec<T>, WavLoadError>(
            WavLoadError::UnsupportedChannelCount(channels),
        ),
{
    if channels == 2 {
        let pairs = audio.len() / 2;
        let mut mono: Vec<T> = Vec::with_capacity(pairs);
        let mut i: usize = 0;
        while i < pairs
            invariant
                i <= pairs,
                pairs == audio.len() / 2,
                forall|left: T, right: T| call_requires(average, (left, right)),
                mono.len() == i,
                forall|j: int|
                    0 <= j < i ==> call_ensures(
                        average,
                        (audio[2 * j], audio[2 * j + 1]),
                        #[trigger] mono[j],
                    ),
            decreases pairs - i,
        {
            let sample = average(audio[2 * i], audio[2 * i + 1]);
            mono.push(sample);
            i += 1;
        }
        Ok(mono)
    } else if channels == 1 {
        Ok(audio)
    } else {
        Err(WavLoadError::UnsupportedChannelCount(channels))
    }
}

} // verus!
