//! The conversion engine: what happens to a fully buffered signal between
//! its rate and channel layout and another.
//!
//! The engine is generic in the sample type and does no arithmetic on
//! samples itself. The two operations that do, the rate conversion of one
//! channel and the mixing of one frame, are handed in by the caller; the
//! contracts say what is handed to them and where their answers go.

use vstd::prelude::*;

use crate::error::AudioError;

verus! {

/// Number of samples of channel `c` in an interleaved signal of `len`
/// samples with `channels` samples per frame: the positions below `len` that
/// leave the remainder `c`.
pub open spec fn channel_len(len: int, channels: int, c: int) -> nat {
    if c < len {
        ((len - c - 1) / channels + 1) as nat
    } else {
        0
    }
}

/// Channel `c` of an interleaved signal.
pub open spec fn channel_of<T>(samples: Seq<T>, channels: int, c: int) -> Seq<T> {
    Seq::new(channel_len(samples.len() as int, channels, c), |k: int| samples[k * channels + c])
}

/// An interleaved signal, channel by channel.
pub open spec fn deinterleaved<T>(samples: Seq<T>, channels: int) -> Seq<Seq<T>> {
    Seq::new(channels as nat, |c: int| channel_of(samples, channels, c))
}

/// Whether all of `channels` have `frames` samples.
pub open spec fn all_of_length<T>(channels: Seq<Seq<T>>, frames: int) -> bool {
    forall|c: int| 0 <= c < channels.len() ==> (#[trigger] channels[c]).len() == frames
}

/// Whether `channels` is a buffer: at least one channel, all of one length.
pub open spec fn is_buffer<T>(channels: Seq<Seq<T>>) -> bool {
    channels.len() > 0 && all_of_length(channels, channels[0].len() as int)
}

/// The interleaving of a buffer of `width` channels: frame after frame, and
/// within a frame channel after channel.
pub open spec fn interleaved<T>(channels: Seq<Seq<T>>, width: int) -> Seq<T> {
    Seq::new(
        (channels[0].len() * width) as nat,
        |i: int| channels[i % width][i / width],
    )
}

/// Frame `i` of a buffer: the sample of each channel at position `i`.
pub open spec fn frame_at<T>(channels: Seq<Seq<T>>, i: int) -> Seq<T> {
    Seq::new(channels.len(), |c: int| channels[c][i])
}

/// The views of the channels of a buffer.
pub open spec fn views<T>(channels: Seq<Vec<T>>) -> Seq<Seq<T>> {
    channels.map_values(|v: Vec<T>| v@)
}

/// The least length among `channels`; zero if there is none.
pub open spec fn shortest_len<T>(channels: Seq<Seq<T>>) -> nat
    decreases channels.len(),
{
    if channels.len() == 0 {
        0
    } else if channels.len() == 1 {
        channels[0].len()
    } else {
        let rest = shortest_len(channels.drop_last());
        if channels.last().len() < rest {
            channels.last().len()
        } else {
            rest
        }
    }
}

/// `channels`, each cut to the length of the shortest.
pub open spec fn trimmed<T>(channels: Seq<Seq<T>>) -> Seq<Seq<T>> {
    Seq::new(channels.len(), |c: int| channels[c].take(shortest_len(channels) as int))
}

/// Position `k` of channel `c` is a position of the interleaved signal.
proof fn lemma_channel_position(len: int, channels: int, c: int, k: int)
    requires
        channels >= 1,
        0 <= c < channels,
        0 <= k < channel_len(len, channels, c),
        len >= 0,
    ensures
        0 <= k * channels + c < len,
        k * channels >= 0,
{
    let span = len - c - 1;
    vstd::arithmetic::div_mod::lemma_fundamental_div_mod(span, channels);
    vstd::arithmetic::div_mod::lemma_mod_bound(span, channels);
    assert(k * channels <= (span / channels) * channels) by (nonlinear_arith)
        requires
            0 <= k <= span / channels,
            channels >= 1,
    ;
    assert(channels * (span / channels) == (span / channels) * channels) by (nonlinear_arith);
    assert(k * channels >= 0) by (nonlinear_arith)
        requires
            k >= 0,
            channels >= 1,
    ;
}

/// In a signal of whole frames every channel has as many samples as there
/// are frames.
pub proof fn lemma_whole_frames_channel_len(len: int, channels: int, c: int)
    requires
        channels >= 1,
        0 <= c < channels,
        len >= 0,
        len % channels == 0,
    ensures
        channel_len(len, channels, c) == len / channels,
{
    vstd::arithmetic::div_mod::lemma_fundamental_div_mod(len, channels);
    let frames = len / channels;
    assert(len == channels * frames);
    if len == 0 {
    } else {
        assert(frames >= 1) by (nonlinear_arith)
            requires
                len == channels * frames,
                len > 0,
                channels >= 1,
        ;
        let span = len - c - 1;
        assert(span == (frames - 1) * channels + (channels - 1 - c)) by (nonlinear_arith)
            requires
                span == len - c - 1,
                len == channels * frames,
        ;
        vstd::arithmetic::div_mod::lemma_fundamental_div_mod_converse(
            span,
            channels,
            frames - 1,
            channels - 1 - c,
        );
    }
}

/// Splits an interleaved signal into its channels.
pub fn deinterleave<T: Copy>(samples: &[T], channels: usize) -> (out: Vec<Vec<T>>)
    requires
        channels >= 1,
    ensures
        views(out@) == deinterleaved(samples@, channels as int),
        out.len() == channels,
        samples.len() % channels == 0 ==> is_buffer(views(out@)) && views(out@)[0].len()
            == samples.len() / channels,
{
    let len = samples.len();
    let mut out: Vec<Vec<T>> = Vec::with_capacity(channels);
    let mut c: usize = 0;
    while c < channels
        invariant
            c <= channels,
            channels >= 1,
            len == samples.len(),
            out.len() == c,
            forall|j: int| 0 <= j < c ==> (#[trigger] out[j])@ == channel_of(samples@, channels as int, j),
        decreases channels - c,
    {
        let count = if c < len {
            (len - c - 1) / channels + 1
        } else {
            0
        };
        let mut channel: Vec<T> = Vec::with_capacity(count);
        let mut k: usize = 0;
        while k < count
            invariant
                k <= count,
                c < channels,
                channels >= 1,
                len == samples.len(),
                count == channel_len(len as int, channels as int, c as int),
                channel.len() == k,
                forall|j: int| 0 <= j < k ==> #[trigger] channel[j] == samples[j * channels + c],
            decreases count - k,
        {
            proof {
                lemma_channel_position(len as int, channels as int, c as int, k as int);
            }
            channel.push(samples[k * channels + c]);
            k += 1;
        }
        assert(channel@ =~= channel_of(samples@, channels as int, c as int));
        out.push(channel);
        c += 1;
    }
    proof {
        assert(views(out@) =~= deinterleaved(samples@, channels as int));
        if samples.len() % channels == 0 {
            assert forall|j: int| 0 <= j < channels implies (#[trigger] views(out@)[j]).len()
                == samples.len() / channels by {
                lemma_whole_frames_channel_len(len as int, channels as int, j);
            }
        }
    }
    out
}

/// Joins the channels of a buffer into one interleaved signal.
pub fn interleave<T: Copy>(channels: &Vec<Vec<T>>) -> (out: Vec<T>)
    requires
        is_buffer(views(channels@)),
    ensures
        out@ == interleaved(views(channels@), channels.len() as int),
        out.len() == channels[0].len() * channels.len(),
{
    let width = channels.len();
    let frames = channels[0].len();
    let mut out: Vec<T> = Vec::new();
    let mut frame: usize = 0;
    assert(views(channels@)[0] == channels[0]@);
    while frame < frames
        invariant
            frame <= frames,
            width == channels.len(),
            width >= 1,
            frames == channels[0].len(),
            is_buffer(views(channels@)),
            views(channels@)[0].len() == frames,
            out.len() == frame * width,
            forall|i: int| 0 <= i < out.len() ==> #[trigger] out[i] == channels[i % (width as int)][i / (width as int)],
        decreases frames - frame,
    {
        let mut c: usize = 0;
        while c < width
            invariant
                c <= width,
                frame < frames,
                width == channels.len(),
                width >= 1,
                frames == channels[0].len(),
                is_buffer(views(channels@)),
                views(channels@)[0].len() == frames,
                out.len() == frame * width + c,
                forall|i: int| 0 <= i < out.len() ==> #[trigger] out[i] == channels[i % (width as int)][i / (width as int)],
            decreases width - c,
        {
            proof {
                assert(views(channels@)[c as int] == channels[c as int]@);
                assert(channels[c as int].len() == frames);
                lemma_position_of(frame as int, width as int, c as int);
            }
            let sample = channels[c][frame];
            out.push(sample);
            c += 1;
        }
        proof {
            assert((frame + 1) * width == frame * width + width) by (nonlinear_arith);
        }
        frame += 1;
    }
    assert(out@ =~= interleaved(views(channels@), width as int));
    out
}

/// Sample `c` of frame `frame` stands at position `frame * width + c`.
proof fn lemma_position_of(frame: int, width: int, c: int)
    requires
        0 <= c < width,
        frame >= 0,
    ensures
        (frame * width + c) % width == c,
        (frame * width + c) / width == frame,
        frame * width >= 0,
{
    vstd::arithmetic::div_mod::lemma_fundamental_div_mod_converse(
        frame * width + c,
        width,
        frame,
        c,
    );
    assert(frame * width >= 0) by (nonlinear_arith)
        requires
            frame >= 0,
            width > 0,
    ;
}

/// Splitting a signal of whole frames into channels and joining them again
/// gives the signal back.
pub proof fn lemma_interleave_inverts_deinterleave<T>(samples: Seq<T>, channels: int)
    requires
        channels >= 1,
        (samples.len() as int) % channels == 0,
    ensures
        interleaved(deinterleaved(samples, channels), channels) == samples,
{
    let parts = deinterleaved(samples, channels);
    let len = samples.len() as int;
    vstd::arithmetic::div_mod::lemma_fundamental_div_mod(len, channels);
    lemma_whole_frames_channel_len(len, channels, 0);
    assert(parts[0].len() == len / channels);
    assert(parts[0].len() * channels == len) by (nonlinear_arith)
        requires
            parts[0].len() == len / channels,
            len == channels * (len / channels),
    ;
    let joined = interleaved(parts, channels);
    assert(joined.len() == samples.len());
    assert forall|i: int| 0 <= i < len implies joined[i] == samples[i] by {
        let c = i % channels;
        let k = i / channels;
        vstd::arithmetic::div_mod::lemma_fundamental_div_mod(i, channels);
        vstd::arithmetic::div_mod::lemma_mod_bound(i, channels);
        lemma_whole_frames_channel_len(len, channels, c);
        assert(0 <= k < len / channels) by (nonlinear_arith)
            requires
                0 <= i < len,
                i == channels * k + c,
                0 <= c < channels,
                len == channels * (len / channels),
        ;
        assert(k * channels + c == i) by (nonlinear_arith)
            requires
                i == channels * k + c,
        ;
        assert(parts[c][k] == samples[k * channels + c]);
    }
    assert(joined =~= samples);
}

/// Whether `sample` is an answer of `mix` to the frame `frame`.
pub open spec fn mixed_from<T, M: Fn(&Vec<T>) -> T>(mix: M, frame: Seq<T>, sample: T) -> bool {
    exists|v: Vec<T>| #[trigger] call_ensures(mix, (&v,), sample) && v@ == frame
}

/// The stretch of `raw` that begins after `delay` samples and has `frames`
/// samples, as far as `raw` reaches.
pub open spec fn window_of<T>(raw: Seq<T>, delay: int, frames: int) -> Seq<T> {
    let start = if delay < raw.len() {
        delay
    } else {
        raw.len() as int
    };
    let end = if delay + frames < raw.len() {
        delay + frames
    } else {
        raw.len() as int
    };
    raw.subrange(start, end)
}

/// Whether `output` is what the engine makes of an answer of `convert` to
/// the channel `input`: the answer is the converter's raw output and the
/// number of leading samples of it that are the delay of its filter, and
/// the engine keeps the `frames` samples after the delay.
pub open spec fn rate_converted<T, R: Fn(&Vec<T>) -> Option<(Vec<T>, usize)>>(
    convert: R,
    input: Seq<T>,
    frames: int,
    output: Seq<T>,
) -> bool {
    exists|a: Vec<T>, raw: Vec<T>, delay: usize| #[trigger]
        call_ensures(convert, (&a,), Some((raw, delay))) && a@ == input && output == window_of(
            raw@,
            delay as int,
            frames,
        )
}

/// Whether every answer of `convert` reaches at least `frames` samples past
/// its delay.
pub open spec fn answers_reach<T, R: Fn(&Vec<T>) -> Option<(Vec<T>, usize)>>(
    convert: R,
    frames: int,
) -> bool {
    forall|a: Vec<T>, raw: Vec<T>, delay: usize| #[trigger]
        call_ensures(convert, (&a,), Some((raw, delay))) ==> delay + frames <= raw.len()
}

/// Whether `convert` may refuse the channel `input`.
pub open spec fn rate_refused<T, R: Fn(&Vec<T>) -> Option<(Vec<T>, usize)>>(
    convert: R,
    input: Seq<T>,
) -> bool {
    exists|a: Vec<T>| #[trigger]
        call_ensures(convert, (&a,), None::<(Vec<T>, usize)>) && a@ == input
}

/// Whether `output` is the buffer `input` brought to `target` channels:
/// two or more channels to one by mixing each frame, one channel to two by
/// duplication, and any other pair of counts by handing the buffer on as it
/// is.
pub open spec fn converted_layout<T, M: Fn(&Vec<T>) -> T>(
    mix: M,
    input: Seq<Seq<T>>,
    target: int,
    output: Seq<Seq<T>>,
) -> bool {
    if input.len() >= 2 && target == 1 {
        &&& output.len() == 1
        &&& output[0].len() == input[0].len()
        &&& forall|i: int|
            0 <= i < output[0].len() ==> mixed_from(mix, frame_at(input, i), #[trigger] output[0][i])
    } else if input.len() == 1 && target == 2 {
        output == seq![input[0], input[0]]
    } else {
        output == input
    }
}

/// The least length among the channels of a buffer.
fn shortest<T>(channels: &Vec<Vec<T>>) -> (least: usize)
    ensures
        least == shortest_len(views(channels@)),
{
    let n = channels.len();
    if n == 0 {
        return 0;
    }
    let mut least = channels[0].len();
    let mut c: usize = 1;
    assert(views(channels@).take(1)[0] == channels[0]@);
    while c < n
        invariant
            1 <= c <= n,
            n == channels.len(),
            least == shortest_len(views(channels@).take(c as int)),
        decreases n - c,
    {
        proof {
            let all = views(channels@);
            assert(all.take(c + 1).drop_last() =~= all.take(c as int));
            assert(all.take(c + 1).last() == channels[c as int]@);
        }
        if channels[c].len() < least {
            least = channels[c].len();
        }
        c += 1;
    }
    assert(views(channels@).take(n as int) =~= views(channels@));
    least
}

/// The least length is the length of some channel and no channel is
/// shorter.
pub proof fn lemma_shortest_len_is_least<T>(channels: Seq<Seq<T>>)
    requires
        channels.len() > 0,
    ensures
        forall|c: int| 0 <= c < channels.len() ==> shortest_len(channels) <= (#[trigger] channels[c]).len(),
        exists|c: int| 0 <= c < channels.len() && shortest_len(channels) == (#[trigger] channels[c]).len(),
    decreases channels.len(),
{
    if channels.len() > 1 {
        let init = channels.drop_last();
        lemma_shortest_len_is_least(init);
        assert forall|c: int| 0 <= c < channels.len() implies shortest_len(channels) <= (#[trigger] channels[c]).len() by {
            if c < init.len() {
                assert(init[c] == channels[c]);
            }
        }
        let w = choose|c: int| 0 <= c < init.len() && shortest_len(init) == (#[trigger] init[c]).len();
        assert(init[w] == channels[w]);
        if channels.last().len() < shortest_len(init) {
            assert(shortest_len(channels) == channels[channels.len() - 1].len());
        } else {
            assert(shortest_len(channels) == channels[w].len());
        }
    } else {
        assert(shortest_len(channels) == channels[0].len());
    }
}

/// A buffer is its own trimming.
pub proof fn lemma_trimmed_buffer_is_unchanged<T>(channels: Seq<Seq<T>>)
    requires
        is_buffer(channels),
    ensures
        trimmed(channels) == channels,
        shortest_len(channels) == channels[0].len(),
{
    lemma_shortest_len_is_least(channels);
    assert forall|c: int| 0 <= c < channels.len() implies trimmed(channels)[c] == channels[c] by {
        assert(channels[c].take(channels[c].len() as int) =~= channels[c]);
    }
    assert(trimmed(channels) =~= channels);
}

/// Cuts every channel to the length of the shortest, so that all have one
/// length.
pub fn trim_to_shortest<T: Copy>(channels: Vec<Vec<T>>) -> (out: Vec<Vec<T>>)
    ensures
        views(out@) == trimmed(views(channels@)),
        out.len() == channels.len(),
        all_of_length(views(out@), shortest_len(views(channels@)) as int),
{
    let least = shortest(&channels);
    let n = channels.len();
    let mut out: Vec<Vec<T>> = Vec::with_capacity(n);
    let mut c: usize = 0;
    proof {
        if n > 0 {
            lemma_shortest_len_is_least(views(channels@));
        }
    }
    while c < n
        invariant
            c <= n,
            n == channels.len(),
            out.len() == c,
            least == shortest_len(views(channels@)),
            forall|j: int| 0 <= j < n ==> least <= (#[trigger] views(channels@)[j]).len(),
            forall|j: int| 0 <= j < c ==> (#[trigger] out[j])@ == channels[j]@.take(least as int),
        decreases n - c,
    {
        assert(views(channels@)[c as int] == channels[c as int]@);
        let mut channel: Vec<T> = Vec::with_capacity(least);
        let mut k: usize = 0;
        while k < least
            invariant
                k <= least,
                c < n,
                n == channels.len(),
                least <= channels[c as int].len(),
                channel.len() == k,
                forall|j: int| 0 <= j < k ==> #[trigger] channel[j] == channels[c as int][j],
            decreases least - k,
        {
            channel.push(channels[c][k]);
            k += 1;
        }
        assert(channel@ =~= channels[c as int]@.take(least as int));
        out.push(channel);
        c += 1;
    }
    assert(views(out@) =~= trimmed(views(channels@)));
    out
}

/// Cuts the stretch out of `raw` that begins after `delay` samples and has
/// `frames` samples, as far as `raw` reaches.
pub fn take_window<T: Copy>(raw: &[T], delay: usize, frames: usize) -> (out: Vec<T>)
    ensures
        out@ == window_of(raw@, delay as int, frames as int),
        out.len() <= frames,
        delay + frames <= raw.len() ==> out.len() == frames,
{
    let len = raw.len();
    let start = if delay < len {
        delay
    } else {
        len
    };
    let end = if frames < len - start {
        start + frames
    } else {
        len
    };
    let mut out: Vec<T> = Vec::with_capacity(end - start);
    let mut i: usize = start;
    while i < end
        invariant
            start <= i <= end,
            end <= len,
            len == raw.len(),
            out.len() == i - start,
            forall|j: int| 0 <= j < out.len() ==> #[trigger] out[j] == raw[start + j],
        decreases end - i,
    {
        out.push(raw[i]);
        i += 1;
    }
    assert(out@ =~= window_of(raw@, delay as int, frames as int));
    out
}

/// Brings a buffer to `target_channels` channels.
///
/// Two or more channels become one: each frame is handed to `mix`, and the
/// answers, in order, are the only channel. One channel becomes two equal
/// ones. For any other pair of counts, equal or not, the buffer is returned
/// as it is.
pub fn convert_channels<T: Copy, M: Fn(&Vec<T>) -> T>(
    input: Vec<Vec<T>>,
    target_channels: usize,
    mix: M,
) -> (out: Vec<Vec<T>>)
    requires
        is_buffer(views(input@)),
        forall|v: Vec<T>| v.len() == input.len() ==> call_requires(mix, (&v,)),
    ensures
        converted_layout(mix, views(input@), target_channels as int, views(out@)),
        !(input.len() >= 2 && target_channels == 1) && !(input.len() == 1 && target_channels == 2)
            ==> out == input,
        is_buffer(views(out@)),
        views(out@)[0].len() == views(input@)[0].len(),
        mapping_supported(input.len() as int, target_channels as int) ==> out.len()
            == target_channels,
{
    let count = input.len();
    let frames = input[0].len();
    assert(views(input@)[0] == input[0]@);
    if count >= 2 && target_channels == 1 {
        let mut mono: Vec<T> = Vec::with_capacity(frames);
        let mut i: usize = 0;
        while i < frames
            invariant
                i <= frames,
                count == input.len(),
                count >= 2,
                frames == input[0].len(),
                is_buffer(views(input@)),
                views(input@)[0].len() == frames,
                forall|v: Vec<T>| v.len() == input.len() ==> call_requires(mix, (&v,)),
                mono.len() == i,
                forall|j: int|
                    0 <= j < i ==> mixed_from(mix, frame_at(views(input@), j), #[trigger] mono[j]),
            decreases frames - i,
        {
            let mut frame: Vec<T> = Vec::with_capacity(count);
            let mut c: usize = 0;
            while c < count
                invariant
                    c <= count,
                    i < frames,
                    count == input.len(),
                    frames == input[0].len(),
                    is_buffer(views(input@)),
                    views(input@)[0].len() == frames,
                    frame.len() == c,
                    forall|j: int| 0 <= j < c ==> #[trigger] frame[j] == input[j][i as int],
                decreases count - c,
            {
                assert(views(input@)[c as int] == input[c as int]@);
                frame.push(input[c][i]);
                c += 1;
            }
            proof {
                assert forall|j: int| 0 <= j < count implies frame[j] == frame_at(views(input@), i as int)[j] by {
                    assert(views(input@)[j] == input[j]@);
                }
                assert(frame@ =~= frame_at(views(input@), i as int));
            }
            let sample = mix(&frame);
            assert(call_ensures(mix, (&frame,), sample));
            mono.push(sample);
            i += 1;
        }
        let mut out: Vec<Vec<T>> = Vec::with_capacity(1);
        out.push(mono);
        proof {
            assert(views(out@)[0] == out[0]@);
            assert(views(out@).len() == 1);
        }
        out
    } else if count == 1 && target_channels == 2 {
        let mut left: Vec<T> = Vec::with_capacity(frames);
        let mut right: Vec<T> = Vec::with_capacity(frames);
        let mut i: usize = 0;
        while i < frames
            invariant
                i <= frames,
                input.len() == 1,
                frames == input[0].len(),
                left.len() == i,
                right.len() == i,
                forall|j: int| 0 <= j < i ==> #[trigger] left[j] == input[0][j],
                forall|j: int| 0 <= j < i ==> #[trigger] right[j] == input[0][j],
            decreases frames - i,
        {
            left.push(input[0][i]);
            right.push(input[0][i]);
            i += 1;
        }
        assert(left@ =~= input[0]@);
        assert(right@ =~= input[0]@);
        let mut out: Vec<Vec<T>> = Vec::with_capacity(2);
        out.push(left);
        out.push(right);
        proof {
            assert(views(out@)[0] == out[0]@);
            assert(views(out@)[1] == out[1]@);
            assert(views(out@) =~= seq![views(input@)[0], views(input@)[0]]);
        }
        out
    } else {
        input
    }
}

/// Whether the engine converts from `input_channels` to `output_channels`:
/// equal counts, two or more to one, or one to two.
pub open spec fn mapping_supported(input_channels: int, output_channels: int) -> bool {
    ||| input_channels == output_channels
    ||| (input_channels >= 2 && output_channels == 1)
    ||| (input_channels == 1 && output_channels == 2)
}

/// Whether a conversion can be carried out: a signal that is not empty and
/// consists of whole frames, rates and channel counts that are not zero, and
/// a channel mapping that the engine has.
pub open spec fn resample_input_valid(
    len: int,
    input_rate: u32,
    input_channels: u16,
    output_rate: u32,
    output_channels: u16,
) -> bool {
    &&& len > 0
    &&& input_rate > 0
    &&& output_rate > 0
    &&& input_channels >= 1
    &&& output_channels >= 1
    &&& len % (input_channels as int) == 0
    &&& mapping_supported(input_channels as int, output_channels as int)
}

/// Whether `staged` is what the rate stage makes of the channels `split`:
/// the channels themselves where the rates are equal; else, for each
/// channel, the `frames` samples after the delay of an answer of `convert`,
/// all cut to the length of the shortest.
pub open spec fn rate_stage<T, R: Fn(&Vec<T>) -> Option<(Vec<T>, usize)>>(
    convert: R,
    same_rate: bool,
    frames: int,
    split: Seq<Seq<T>>,
    staged: Seq<Seq<T>>,
) -> bool {
    if same_rate {
        staged == split
    } else {
        exists|rated: Seq<Seq<T>>|
            {
                &&& rated.len() == split.len()
                &&& forall|c: int|
                    0 <= c < split.len() ==> rate_converted(
                        convert,
                        split[c],
                        frames,
                        #[trigger] rated[c],
                    )
                &&& staged == trimmed(rated)
            }
    }
}

/// The number of frames that a conversion between different rates aims at:
/// the frames of the input times the ratio of the rates, rounded down.
pub open spec fn target_frames(
    len: int,
    input_rate: u32,
    input_channels: u16,
    output_rate: u32,
) -> int {
    nominal_frames(len / (input_channels as int), input_rate as int, output_rate as int)
}

/// Converts an interleaved signal from one sample rate and channel count to
/// another.
///
/// The signal is split into its channels. Where the rates differ, each
/// channel is handed to `convert_rate`, which answers with its raw output
/// and the number of leading samples that are the delay of its filter; of
/// each answer the engine keeps the samples after the delay, as many as the
/// input has frames times the ratio of the rates, and then cuts all channels
/// to the length of the shortest. A converter whose answers all reach that
/// far past their delay thus yields exactly that many frames. Where the
/// rates are equal this step is left out. The channels are then brought to `output_channels` as
/// `convert_channels` does, with `mix`, and joined into one interleaved
/// signal.
///
/// Fails with `ResampleParameterInvalid` when the signal is empty or does
/// not consist of whole frames, when a rate or a channel count is zero, when
/// the engine has no mapping between the two channel counts, when the
/// number of output frames does not fit the machine, and when
/// `convert_rate` refuses a channel.
pub fn resample<T: Copy, R: Fn(&Vec<T>) -> Option<(Vec<T>, usize)>, M: Fn(&Vec<T>) -> T>(
    input: &[T],
    input_rate: u32,
    input_channels: u16,
    output_rate: u32,
    output_channels: u16,
    convert_rate: R,
    mix: M,
) -> (out: Result<Vec<T>, AudioError>)
    requires
        forall|v: Vec<T>| call_requires(convert_rate, (&v,)),
        forall|v: Vec<T>| call_requires(mix, (&v,)),
    ensures
        out matches Err(e) ==> e == AudioError::ResampleParameterInvalid,
        !resample_input_valid(
            input.len() as int,
            input_rate,
            input_channels,
            output_rate,
            output_channels,
        ) ==> out is Err,
        resample_input_valid(
            input.len() as int,
            input_rate,
            input_channels,
            output_rate,
            output_channels,
        ) ==> match out {
            Ok(v) => exists|staged: Seq<Seq<T>>, laid: Seq<Seq<T>>|
                {
                    &&& rate_stage(
                        convert_rate,
                        input_rate == output_rate,
                        target_frames(input.len() as int, input_rate, input_channels, output_rate),
                        deinterleaved(input@, input_channels as int),
                        staged,
                    )
                    &&& #[trigger] converted_layout(mix, staged, output_channels as int, laid)
                    &&& v@ == interleaved(laid, output_channels as int)
                },
            Err(_) => input_rate != output_rate && (target_frames(
                input.len() as int,
                input_rate,
                input_channels,
                output_rate,
            ) > usize::MAX || exists|c: int|
                0 <= c < input_channels && #[trigger] rate_refused(
                    convert_rate,
                    deinterleaved(input@, input_channels as int)[c],
                )),
        },
        resample_input_valid(
            input.len() as int,
            input_rate,
            input_channels,
            output_rate,
            output_channels,
        ) && input_rate == output_rate ==> out is Ok,
        resample_input_valid(
            input.len() as int,
            input_rate,
            input_channels,
            output_rate,
            output_channels,
        ) && input_rate == output_rate && input_channels == output_channels ==> (out matches Ok(v)
            && v@ == input@),
        input_rate != output_rate ==> (out matches Ok(v) ==> v.len() <= target_frames(
            input.len() as int,
            input_rate,
            input_channels,
            output_rate,
        ) * output_channels),
        input_rate != output_rate && answers_reach(
            convert_rate,
            target_frames(input.len() as int, input_rate, input_channels, output_rate),
        ) ==> (out matches Ok(v) ==> v.len() == target_frames(
            input.len() as int,
            input_rate,
            input_channels,
            output_rate,
        ) * output_channels),
{
    let len = input.len();
    if len == 0 || input_rate == 0 || output_rate == 0 || input_channels == 0 || output_channels
        == 0 {
        return Err(AudioError::ResampleParameterInvalid);
    }
    let width = input_channels as usize;
    let target = output_channels as usize;
    if len % width != 0 {
        return Err(AudioError::ResampleParameterInvalid);
    }
    if !(width == target || (width >= 2 && target == 1) || (width == 1 && target == 2)) {
        return Err(AudioError::ResampleParameterInvalid);
    }
    let split = deinterleave(input, width);
    let ghost parts = deinterleaved(input@, width as int);
    let ghost aim = target_frames(len as int, input_rate, input_channels, output_rate);
    let staged = if input_rate != output_rate {
        let frames = match nominal_output_frames(len / width, input_rate, output_rate) {
            Some(frames) => frames,
            None => {
                return Err(AudioError::ResampleParameterInvalid);
            },
        };
        let mut rated: Vec<Vec<T>> = Vec::with_capacity(width);
        let mut c: usize = 0;
        while c < width
            invariant
                c <= width,
                width == split.len(),
                width == input_channels,
                views(split@) == parts,
                parts == deinterleaved(input@, input_channels as int),
                input_rate != output_rate,
                frames == aim,
                aim == target_frames(input.len() as int, input_rate, input_channels, output_rate),
                resample_input_valid(
                    input.len() as int,
                    input_rate,
                    input_channels,
                    output_rate,
                    output_channels,
                ),
                forall|v: Vec<T>| call_requires(convert_rate, (&v,)),
                rated.len() == c,
                forall|j: int|
                    0 <= j < c ==> (#[trigger] views(rated@)[j]).len() <= frames,
                answers_reach(convert_rate, aim) ==> forall|j: int|
                    0 <= j < c ==> (#[trigger] views(rated@)[j]).len() == frames,
                forall|j: int|
                    0 <= j < c ==> rate_converted(
                        convert_rate,
                        parts[j],
                        aim,
                        #[trigger] views(rated@)[j],
                    ),
            decreases width - c,
        {
            assert(views(split@)[c as int] == split[c as int]@);
            let answer = convert_rate(&split[c]);
            match answer {
                Some((raw, delay)) => {
                    let channel = take_window(raw.as_slice(), delay, frames);
                    proof {
                        assert(call_ensures(convert_rate, (&split[c as int],), Some((raw, delay))));
                        assert(rate_converted(convert_rate, parts[c as int], aim, channel@));
                        let ghost before = views(rated@);
                        assert forall|j: int| 0 <= j < c + 1 implies rate_converted(
                            convert_rate,
                            parts[j],
                            aim,
                            #[trigger] views(rated@.push(channel))[j],
                        ) && views(rated@.push(channel))[j].len() <= frames && (answers_reach(
                            convert_rate,
                            aim,
                        ) ==> views(rated@.push(channel))[j].len() == frames) by {
                            if j < c {
                                assert(views(rated@.push(channel))[j] == before[j]);
                            }
                        }
                    }
                    rated.push(channel);
                },
                None => {
                    proof {
                        assert(call_ensures(
                            convert_rate,
                            (&split[c as int],),
                            None::<(Vec<T>, usize)>,
                        ));
                        assert(rate_refused(convert_rate, parts[c as int]));
                    }
                    return Err(AudioError::ResampleParameterInvalid);
                },
            }
            c += 1;
        }
        let ghost rated_view = views(rated@);
        let cut = trim_to_shortest(rated);
        proof {
            assert(views(cut@) == trimmed(rated_view));
            assert(rate_stage(convert_rate, false, aim, parts, views(cut@)));
            lemma_shortest_len_is_least(rated_view);
            assert(rated_view[0].len() <= frames);
            assert(views(cut@)[0].len() == shortest_len(rated_view));
            if answers_reach(convert_rate, aim) {
                assert(is_buffer(rated_view));
                lemma_trimmed_buffer_is_unchanged(rated_view);
                assert(views(cut@)[0].len() == frames);
            }
        }
        cut
    } else {
        split
    };
    let ghost staged_view = views(staged@);
    assert(is_buffer(staged_view));
    assert(staged_view.len() == width);
    assert(input_rate != output_rate ==> staged_view[0].len() <= aim);
    assert(input_rate != output_rate && answers_reach(convert_rate, aim) ==> staged_view[0].len()
        == aim);
    let laid = convert_channels(staged, target, mix);
    let ghost laid_view = views(laid@);
    assert(laid_view.len() == target);
    assert(laid.len() == target);
    assert(laid_view[0] == laid[0]@);
    let joined = interleave(&laid);
    proof {
        assert(converted_layout(mix, staged_view, output_channels as int, laid_view));
        if input_rate == output_rate && input_channels == output_channels {
            lemma_interleave_inverts_deinterleave(input@, width as int);
        }
        if input_rate != output_rate {
            assert(joined.len() <= aim * output_channels) by (nonlinear_arith)
                requires
                    joined.len() == laid[0].len() * target,
                    laid[0].len() <= aim,
                    target == output_channels,
            ;
            if answers_reach(convert_rate, aim) {
                assert(laid[0].len() == aim);
                assert(joined.len() == aim * output_channels) by (nonlinear_arith)
                    requires
                        joined.len() == laid[0].len() * target,
                        laid[0].len() == aim,
                        target == output_channels,
                ;
            }
        }
    }
    Ok(joined)
}

/// The number of frames that `frames` frames at `input_rate` take at
/// `output_rate`, rounded down.
pub open spec fn nominal_frames(frames: int, input_rate: int, output_rate: int) -> int {
    frames * output_rate / input_rate
}

/// The nominal number of frames is the exact ratio rounded down: it is less
/// than one frame below `frames * output_rate / input_rate`, and never above
/// it.
pub proof fn lemma_nominal_frames_is_rounded_ratio(frames: int, input_rate: int, output_rate: int)
    requires
        input_rate > 0,
    ensures
        nominal_frames(frames, input_rate, output_rate) * input_rate <= frames * output_rate,
        frames * output_rate < nominal_frames(frames, input_rate, output_rate) * input_rate
            + input_rate,
{
    let scaled = frames * output_rate;
    vstd::arithmetic::div_mod::lemma_fundamental_div_mod(scaled, input_rate);
    vstd::arithmetic::div_mod::lemma_mod_bound(scaled, input_rate);
    assert(input_rate * (scaled / input_rate) == (scaled / input_rate) * input_rate)
        by (nonlinear_arith);
}

/// Computes the nominal number of output frames of a rate conversion: the
/// input frames times the ratio of the rates, rounded down. A converter's
/// own output may differ from it by the frames its filter delays.
///
/// Returns `None` when the input rate is zero or the number does not fit.
pub fn nominal_output_frames(frames: usize, input_rate: u32, output_rate: u32) -> (nominal: Option<
    usize,
>)
    ensures
        input_rate == 0 ==> nominal is None,
        input_rate > 0 ==> match nominal {
            Some(n) => n == nominal_frames(frames as int, input_rate as int, output_rate as int),
            None => nominal_frames(frames as int, input_rate as int, output_rate as int)
                > usize::MAX,
        },
{
    if input_rate == 0 {
        return None;
    }
    assert(frames * output_rate <= u64::MAX * u32::MAX) by (nonlinear_arith)
        requires
            0 <= frames <= u64::MAX,
            0 <= output_rate <= u32::MAX,
    ;
    let scaled: u128 = (frames as u128) * (output_rate as u128);
    let nominal: u128 = scaled / (input_rate as u128);
    if nominal > usize::MAX as u128 {
        None
    } else {
        Some(nominal as usize)
    }
}

} // verus!
