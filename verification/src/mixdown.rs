//! Block arithmetic on canonical 16-bit samples: per-frame downmix to mono
//! and the peak of a block.

use vstd::prelude::*;
use vstd::slice::slice_subrange;

use crate::rounding::{lemma_nearest_in_range, lemma_nearest_is_closest, nearest, saturate_i16};

verus! {

/// Absolute value of a sample, in the integers (so that `-32768` has one).
pub open spec fn magnitude(x: i16) -> int {
    if x < 0 {
        -(x as int)
    } else {
        x as int
    }
}

/// Sum of the samples of `s`.
pub open spec fn sample_sum(s: Seq<i16>) -> int
    decreases s.len(),
{
    if s.len() == 0 {
        0
    } else {
        sample_sum(s.drop_last()) + s.last()
    }
}

/// The mono sample of one frame: the mean of its channel values, rounded to
/// the nearest integer, a tie away from zero, and saturated to 16 bits.
pub open spec fn downmix(frame: Seq<i16>) -> int {
    saturate_i16(nearest(sample_sum(frame), frame.len() as int))
}

/// Frame number `k` of an interleaved block with `channels` samples per frame.
pub open spec fn frame_of(data: Seq<i16>, channels: int, k: int) -> Seq<i16> {
    data.subrange(k * channels, (k + 1) * channels)
}

/// The mono rendering of an interleaved block: one downmixed sample for each
/// complete frame, in order. A trailing partial frame is dropped.
pub open spec fn mono_of(data: Seq<i16>, channels: int) -> Seq<i16> {
    Seq::new((data.len() as int / channels) as nat, |k: int| downmix(frame_of(data, channels, k)) as i16)
}

/// Whether position `k` holds the peak of `s`: no sample has a larger
/// magnitude, and every earlier sample has a strictly smaller one.
pub open spec fn is_peak_at(s: Seq<i16>, k: int) -> bool {
    &&& 0 <= k < s.len()
    &&& forall|j: int| 0 <= j < s.len() ==> magnitude(#[trigger] s[j]) <= magnitude(s[k])
    &&& forall|j: int| 0 <= j < k ==> magnitude(#[trigger] s[j]) < magnitude(s[k])
}

/// Position of the peak of a non-empty block, found from left to right.
pub open spec fn peak_index(s: Seq<i16>) -> int
    decreases s.len(),
{
    if s.len() <= 1 {
        0
    } else {
        let p = peak_index(s.drop_last());
        if magnitude(s.last()) > magnitude(s[p]) {
            s.len() - 1
        } else {
            p
        }
    }
}

/// The sum of a block lies between its length times the least and the
/// greatest 16-bit value.
pub proof fn lemma_sample_sum_bounds(s: Seq<i16>)
    ensures
        i16::MIN * s.len() <= sample_sum(s) <= i16::MAX * s.len(),
    decreases s.len(),
{
    if s.len() > 0 {
        lemma_sample_sum_bounds(s.drop_last());
    }
}

/// The downmixed sample is the rounded mean of the frame: the sum divided
/// by the channel count and rounded to the nearest integer, a tie away from
/// zero. The mean never leaves the 16-bit range, so saturation changes
/// nothing. The sample is at most half away from the exact mean, and is the
/// mean itself when the sum is a multiple of the channel count.
pub proof fn lemma_downmix_is_rounded_mean(frame: Seq<i16>)
    requires
        frame.len() > 0,
    ensures
        downmix(frame) == nearest(sample_sum(frame), frame.len() as int),
        i16::MIN <= downmix(frame) <= i16::MAX,
        -(frame.len() as int) <= 2 * (sample_sum(frame) - downmix(frame) * frame.len())
            <= frame.len(),
        sample_sum(frame) >= 0 ==> 2 * (sample_sum(frame) - downmix(frame) * frame.len())
            < frame.len(),
        sample_sum(frame) <= 0 ==> -(frame.len() as int) < 2 * (sample_sum(frame) - downmix(frame)
            * frame.len()),
        sample_sum(frame) % (frame.len() as int) == 0 ==> downmix(frame) * frame.len()
            == sample_sum(frame),
{
    let n = frame.len() as int;
    let total = sample_sum(frame);
    lemma_sample_sum_bounds(frame);
    lemma_nearest_is_closest(total, n);
    lemma_nearest_in_range(total, n);
}

/// The peak position of a non-empty block is the first position of greatest
/// magnitude, and no other position is.
pub proof fn lemma_peak_index_is_first_maximum(s: Seq<i16>)
    requires
        s.len() > 0,
    ensures
        is_peak_at(s, peak_index(s)),
        forall|k: int| is_peak_at(s, k) ==> k == peak_index(s),
    decreases s.len(),
{
    if s.len() > 1 {
        let init = s.drop_last();
        lemma_peak_index_is_first_maximum(init);
        let p = peak_index(init);
        assert(is_peak_at(init, p));
        assert(forall|j: int| 0 <= j < init.len() ==> init[j] == s[j]);
        assert forall|j: int| 0 <= j < s.len() implies magnitude(#[trigger] s[j]) <= magnitude(
            s[peak_index(s)],
        ) by {
            if j < init.len() {
                assert(magnitude(init[j]) <= magnitude(init[p]));
            }
        }
        assert forall|j: int| 0 <= j < peak_index(s) implies magnitude(#[trigger] s[j])
            < magnitude(s[peak_index(s)]) by {
            if peak_index(s) == p {
                assert(magnitude(init[j]) < magnitude(init[p]));
            } else {
                assert(magnitude(init[j]) <= magnitude(init[p]));
            }
        }
    }
    assert forall|k: int| is_peak_at(s, k) implies k == peak_index(s) by {
        let p = peak_index(s);
        if k < p {
            assert(magnitude(s[k]) < magnitude(s[p]));
            assert(magnitude(s[p]) <= magnitude(s[k]));
        } else if p < k {
            assert(magnitude(s[p]) < magnitude(s[k]));
            assert(magnitude(s[k]) <= magnitude(s[p]));
        }
    }
}

/// Downmixes one frame: the mean of its samples, computed in a wider integer
/// type, rounded to the nearest integer, a tie away from zero, and saturated
/// to 16 bits.
pub fn downmix_frame(frame: &[i16]) -> (mono: i16)
    requires
        frame.len() > 0,
    ensures
        mono == downmix(frame@),
{
    let n = frame.len();
    let mut total: i128 = 0;
    let mut i: usize = 0;
    while i < n
        invariant
            i <= n,
            n == frame.len(),
            total == sample_sum(frame@.take(i as int)),
            i16::MIN * i <= total <= i16::MAX * i,
        decreases n - i,
    {
        assert(frame@.take(i + 1).drop_last() =~= frame@.take(i as int));
        total = total + frame[i] as i128;
        i += 1;
    }
    assert(frame@.take(n as int) =~= frame@);
    let count = n as i128;
    let mean = if total >= 0 {
        (2 * total + count) / (2 * count)
    } else {
        -((-2 * total + count) / (2 * count))
    };
    if mean < i16::MIN as i128 {
        i16::MIN
    } else if mean > i16::MAX as i128 {
        i16::MAX
    } else {
        mean as i16
    }
}

/// Renders an interleaved block of `channels`-sample frames as mono. With
/// one channel the block is returned as it is; with more, each complete
/// frame is downmixed to one sample.
pub fn to_mono(data: &[i16], channels: u16) -> (mono: Vec<i16>)
    requires
        channels >= 1,
    ensures
        mono@ == mono_of(data@, channels as int),
        channels == 1 ==> mono@ == data@,
{
    let width = channels as usize;
    let frames = data.len() / width;
    let mut mono: Vec<i16> = Vec::with_capacity(frames);
    let mut k: usize = 0;
    while k < frames
        invariant
            k <= frames,
            width == channels,
            width >= 1,
            frames == data.len() / width,
            mono.len() == k,
            forall|j: int| 0 <= j < k ==> mono[j] == downmix(frame_of(data@, width as int, j)) as i16,
        decreases frames - k,
    {
        proof {
            lemma_frame_in_bounds(data.len() as int, width as int, k as int);
        }
        let frame = slice_subrange(data, k * width, (k + 1) * width);
        let sample = downmix_frame(frame);
        mono.push(sample);
        k += 1;
    }
    proof {
        assert(mono@ =~= mono_of(data@, channels as int));
        if channels == 1 {
            assert(width == 1);
            assert(frames == data.len() / 1);
            assert(mono@.len() == data@.len());
            assert forall|j: int| 0 <= j < data.len() implies mono@[j] == data@[j] by {
                assert(frame_of(data@, 1, j) =~= seq![data@[j]]);
                lemma_downmix_single(data@[j]);
            }
            assert(mono@ =~= data@);
        }
    }
    mono
}

/// A frame of one channel downmixes to its only sample.
pub proof fn lemma_downmix_single(x: i16)
    ensures
        downmix(seq![x]) == x,
{
    let frame = seq![x];
    assert(frame.drop_last() =~= Seq::<i16>::empty());
    assert(sample_sum(frame.drop_last()) == 0);
    assert(sample_sum(frame) == x);
    lemma_nearest_is_closest(x as int, 1);
}

/// Frame `k` of a block lies inside the block when `k` is below the number
/// of complete frames.
proof fn lemma_frame_in_bounds(len: int, width: int, k: int)
    requires
        width >= 1,
        0 <= k < len / width,
        len >= 0,
    ensures
        0 <= k * width <= (k + 1) * width <= len,
        (k + 1) * width == k * width + width,
{
    vstd::arithmetic::div_mod::lemma_fundamental_div_mod(len, width);
    vstd::arithmetic::div_mod::lemma_mod_bound(len, width);
    assert((k + 1) * width == k * width + width) by (nonlinear_arith);
    assert(k * width >= 0) by (nonlinear_arith)
        requires
            k >= 0,
            width >= 1,
    ;
    assert((k + 1) * width <= (len / width) * width) by (nonlinear_arith)
        requires
            k + 1 <= len / width,
            width >= 1,
    ;
    assert(width * (len / width) == (len / width) * width) by (nonlinear_arith);
}

/// The peak of a block: its sample of greatest magnitude, the earliest one
/// where several share it. An empty block has none.
pub fn block_peak(samples: &[i16]) -> (peak: Option<i16>)
    ensures
        samples.len() == 0 ==> peak is None,
        samples.len() > 0 ==> peak == Some(samples@[peak_index(samples@)]),
        peak matches Some(p) ==> exists|k: int| is_peak_at(samples@, k) && samples@[k] == p,
{
    let n = samples.len();
    if n == 0 {
        return None;
    }
    let mut best: usize = 0;
    let mut i: usize = 1;
    assert(samples@.take(1).len() <= 1);
    while i < n
        invariant
            1 <= i <= n,
            n == samples.len(),
            best < i,
            best == peak_index(samples@.take(i as int)),
        decreases n - i,
    {
        assert(samples@.take(i + 1).drop_last() =~= samples@.take(i as int));
        assert(samples@.take(i + 1).last() == samples@[i as int]);
        assert(samples@.take(i + 1)[best as int] == samples@[best as int]);
        if magnitude_of(samples[i]) > magnitude_of(samples[best]) {
            best = i;
        }
        i += 1;
    }
    proof {
        assert(samples@.take(n as int) =~= samples@);
        lemma_peak_index_is_first_maximum(samples@);
    }
    Some(samples[best])
}

/// Magnitude of one sample, widened so that the most negative value has one.
pub fn magnitude_of(x: i16) -> (m: i32)
    ensures
        m == magnitude(x),
{
    if x < 0 {
        -(x as i32)
    } else {
        x as i32
    }
}

} // verus!
