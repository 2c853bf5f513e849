//! Stream and file formats, and the conversion of native integer samples to
//! the canonical 16-bit representation.

use dasp_sample::Sample;
use vstd::prelude::*;

use crate::error::AudioError;
use crate::rounding::{nearest, saturate_i16};

verus! {

/// Lowest sample rate, in Hz, that the recorder accepts from a device.
pub const MIN_SAMPLE_RATE: u32 = 8000;

/// Highest sample rate, in Hz, that the recorder accepts from a device.
pub const MAX_SAMPLE_RATE: u32 = 192000;

/// Bit depth of the canonical representation.
pub const CANONICAL_BITS: u16 = 16;

/// The numeric representation in which a device delivers its samples.
#[derive(Debug, Clone, Copy, PartialEq, Eq, Structural)]
pub enum SampleFormat {
    /// Signed 8-bit integers.
    I8,
    /// Signed 16-bit integers.
    I16,
    /// Signed 32-bit integers.
    I32,
    /// 32-bit floating point.
    F32,
    /// Any representation that the recorder does not handle.
    Other,
}

/// How the samples of an audio file are encoded.
#[derive(Debug, Clone, Copy, PartialEq, Eq, Structural)]
pub enum PcmEncoding {
    /// Signed integers.
    Int,
    /// IEEE floating point.
    Float,
}

/// What a capture device granted when its input stream was negotiated.
#[derive(Debug, Clone, Copy, PartialEq, Eq, Structural)]
pub struct StreamConfig {
    /// Frames per second.
    pub sample_rate: u32,
    /// Samples per frame.
    pub channels: u16,
    /// The representation of each sample.
    pub sample_format: SampleFormat,
}

/// The header fields of a framed PCM file.
#[derive(Debug, Clone, Copy, PartialEq, Eq, Structural)]
pub struct WavSpec {
    /// Samples per frame.
    pub channels: u16,
    /// Frames per second.
    pub sample_rate: u32,
    /// Bits of one sample.
    pub bits_per_sample: u16,
    /// Encoding of one sample.
    pub sample_format: PcmEncoding,
}

/// Whether `rate` lies in the supported range.
pub open spec fn rate_supported(rate: u32) -> bool {
    MIN_SAMPLE_RATE <= rate <= MAX_SAMPLE_RATE
}

/// Whether the recorder can convert samples of `format`.
pub open spec fn format_supported(format: SampleFormat) -> bool {
    format != SampleFormat::Other
}

/// Whether the recorder accepts a negotiated configuration: a rate in range,
/// a format it converts, and at least one channel.
pub open spec fn config_supported(config: StreamConfig) -> bool {
    &&& rate_supported(config.sample_rate)
    &&& format_supported(config.sample_format)
    &&& config.channels >= 1
}

/// The header of every file the recorder writes: mono, 16-bit signed
/// integers, at the rate of the input.
pub open spec fn canonical_spec(sample_rate: u32) -> WavSpec {
    WavSpec {
        channels: 1,
        sample_rate,
        bits_per_sample: CANONICAL_BITS,
        sample_format: PcmEncoding::Int,
    }
}

/// The header of a converted file: 16-bit signed integers at the target rate
/// and channel count.
pub open spec fn output_spec(sample_rate: u32, channels: u16) -> WavSpec {
    WavSpec { channels, sample_rate, bits_per_sample: CANONICAL_BITS, sample_format: PcmEncoding::Int }
}

/// Tests a negotiated sample rate against the supported range.
pub fn is_rate_supported(rate: u32) -> (ok: bool)
    ensures
        ok == rate_supported(rate),
{
    MIN_SAMPLE_RATE <= rate && rate <= MAX_SAMPLE_RATE
}

/// Tests whether the recorder converts samples of `format`.
pub fn is_format_supported(format: SampleFormat) -> (ok: bool)
    ensures
        ok == format_supported(format),
{
    match format {
        SampleFormat::I8 | SampleFormat::I16 | SampleFormat::I32 | SampleFormat::F32 => true,
        SampleFormat::Other => false,
    }
}

/// Decides the header of the file to record into from what the device
/// granted, or refuses the configuration.
pub fn plan_capture(config: &StreamConfig) -> (plan: Result<WavSpec, AudioError>)
    ensures
        config_supported(*config) ==> plan == Ok::<WavSpec, AudioError>(
            canonical_spec(config.sample_rate),
        ),
        !config_supported(*config) ==> plan == Err::<WavSpec, AudioError>(
            AudioError::UnsupportedConfiguration,
        ),
{
    if !is_rate_supported(config.sample_rate) || !is_format_supported(config.sample_format)
        || config.channels == 0 {
        return Err(AudioError::UnsupportedConfiguration);
    }
    Ok(
        WavSpec {
            channels: 1,
            sample_rate: config.sample_rate,
            bits_per_sample: CANONICAL_BITS,
            sample_format: PcmEncoding::Int,
        },
    )
}

/// The header of a converted file with the given rate and channel count.
pub fn make_output_spec(sample_rate: u32, channels: u16) -> (spec: WavSpec)
    ensures
        spec == output_spec(sample_rate, channels),
{
    WavSpec { channels, sample_rate, bits_per_sample: CANONICAL_BITS, sample_format: PcmEncoding::Int }
}

/// `dasp_sample::Sample::from_sample` from `i8` to `i16`. The crate shifts
/// the value left by eight bits: the result is the input times 256, which
/// always fits.
#[verifier::external_body]
fn sample_from_i8(s: i8) -> (r: i16)
    ensures
        r == s * 256,
{
    i16::from_sample(s)
}

/// `dasp_sample::Sample::from_sample` from `i32` to `i16`. The crate keeps
/// the upper sixteen bits by an arithmetic shift: the result is the input
/// divided by 65536, rounded down.
#[verifier::external_body]
fn sample_from_i32(s: i32) -> (r: i16)
    ensures
        r == s / 65536,
{
    i16::from_sample(s)
}

/// The canonical samples of a block of signed 8-bit samples.
pub open spec fn canonical_from_i8(data: Seq<i8>) -> Seq<i16> {
    Seq::new(data.len(), |i: int| (data[i] * 256) as i16)
}

/// The canonical value of one signed 32-bit sample: the sample divided by
/// 65536, rounded to the nearest integer, a tie away from zero, and
/// saturated to 16 bits.
pub open spec fn canonical_i32(s: i32) -> int {
    saturate_i16(nearest(s as int, 65536))
}

/// The canonical samples of a block of signed 32-bit samples.
pub open spec fn canonical_from_i32(data: Seq<i32>) -> Seq<i16> {
    Seq::new(data.len(), |i: int| canonical_i32(data[i]) as i16)
}

/// Converts one signed 32-bit sample to the canonical representation. The
/// upper sixteen bits come from the sample crate; the lower sixteen decide
/// whether the value is rounded up.
pub fn sample_i16_from_i32(s: i32) -> (r: i16)
    ensures
        r == canonical_i32(s),
{
    let upper = sample_from_i32(s);
    let lower: i64 = s as i64 - (upper as i64) * 65536;
    let round_up = if s >= 0 {
        lower >= 32768
    } else {
        lower > 32768
    };
    proof {
        assert(0 <= lower < 65536);
        if s >= 0 {
            if lower >= 32768 {
                vstd::arithmetic::div_mod::lemma_fundamental_div_mod_converse(
                    2 * s + 65536,
                    131072,
                    upper + 1,
                    2 * lower - 65536,
                );
            } else {
                vstd::arithmetic::div_mod::lemma_fundamental_div_mod_converse(
                    2 * s + 65536,
                    131072,
                    upper as int,
                    2 * lower + 65536,
                );
            }
        } else {
            if lower > 32768 {
                vstd::arithmetic::div_mod::lemma_fundamental_div_mod_converse(
                    -2 * s + 65536,
                    131072,
                    -(upper + 1),
                    196608 - 2 * lower,
                );
            } else {
                vstd::arithmetic::div_mod::lemma_fundamental_div_mod_converse(
                    -2 * s + 65536,
                    131072,
                    -(upper as int),
                    65536 - 2 * lower,
                );
            }
        }
    }
    if round_up && upper < i16::MAX {
        upper + 1
    } else {
        upper
    }
}

/// Converts a block of signed 8-bit samples to the canonical representation,
/// sample by sample and in order. The scaling by 256 is exact, so there is
/// nothing to round.
pub fn samples_from_i8(data: &[i8]) -> (out: Vec<i16>)
    ensures
        out@ == canonical_from_i8(data@),
{
    let n = data.len();
    let mut out: Vec<i16> = Vec::with_capacity(n);
    let mut i: usize = 0;
    while i < n
        invariant
            i <= n,
            n == data.len(),
            out.len() == i,
            forall|j: int| 0 <= j < i ==> out[j] == data[j] * 256,
        decreases n - i,
    {
        out.push(sample_from_i8(data[i]));
        i += 1;
    }
    assert(out@ =~= canonical_from_i8(data@));
    out
}

/// Converts a block of signed 32-bit samples to the canonical
/// representation, sample by sample and in order: each is divided by 65536,
/// rounded to the nearest integer, a tie away from zero, and saturated.
pub fn samples_from_i32(data: &[i32]) -> (out: Vec<i16>)
    ensures
        out@ == canonical_from_i32(data@),
{
    let n = data.len();
    let mut out: Vec<i16> = Vec::with_capacity(n);
    let mut i: usize = 0;
    while i < n
        invariant
            i <= n,
            n == data.len(),
            out.len() == i,
            forall|j: int| 0 <= j < i ==> out[j] == canonical_i32(data[j]),
        decreases n - i,
    {
        out.push(sample_i16_from_i32(data[i]));
        i += 1;
    }
    assert(out@ =~= canonical_from_i32(data@));
    out
}

} // verus!
