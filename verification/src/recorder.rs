//! The recording session: one capture-to-file operation at a time, from
//! `start_recording` to `stop_recording`.
//!
//! The session decides; its caller does the work on the device and the file.
//! A caller negotiates the input stream, asks `start_recording`, opens the
//! file with the header it is given, and for every block that the device
//! delivers asks `capture_block` what to write and to report, then tells
//! `note_write` how much of it reached the file.

use vstd::prelude::*;

use crate::error::AudioError;
use crate::format::{canonical_spec, config_supported, plan_capture, StreamConfig, WavSpec};
use crate::mixdown::{block_peak, mono_of, peak_index, to_mono};

verus! {

/// The state of the file that a recording fills.
#[derive(Debug, Clone, Copy, PartialEq, Eq, Structural)]
pub struct FrameSink {
    /// The header that the file was created with.
    pub spec: WavSpec,
    /// Samples per frame of the blocks that the device delivers.
    pub channels: u16,
    /// Whether a write has failed, after which no block is accepted.
    pub halted: bool,
    /// Mono samples that reached the file, saturating at `u64::MAX`.
    pub frames_written: u64,
}

/// What a session is, as mathematics.
pub struct SessionView {
    /// Whether a recording is running.
    pub recording: bool,
    /// The file that the running recording fills.
    pub output_path: Option<Seq<char>>,
    /// The state of that file.
    pub sink: Option<FrameSink>,
}

/// What a finished recording is, as mathematics.
pub struct FinishedView {
    /// The file that was recorded into.
    pub path: Seq<char>,
    /// The header of that file.
    pub spec: WavSpec,
    /// Mono samples that reached the file.
    pub frames_written: u64,
    /// Whether a failed write cut the recording short.
    pub halted: bool,
}

impl SessionView {
    /// The session with no recording running.
    pub open spec fn idle() -> SessionView {
        SessionView { recording: false, output_path: None, sink: None }
    }

    /// The output file and its sink exist exactly while a recording runs,
    /// and the sink's file is mono, 16-bit, fed by at least one channel.
    pub open spec fn wf(self) -> bool {
        &&& self.recording <==> self.output_path is Some
        &&& self.recording <==> self.sink is Some
        &&& self.sink matches Some(sink) ==> sink.channels >= 1 && sink.spec == canonical_spec(
            sink.spec.sample_rate,
        )
    }

    /// Whether a delivered block is accepted: a recording runs and no write
    /// has failed.
    pub open spec fn accepting(self) -> bool {
        self.recording && self.sink is Some && !self.sink->0.halted
    }
}

/// `frames` more samples on a count that saturates.
pub open spec fn saturating_count(count: u64, frames: usize) -> u64 {
    if count + frames > u64::MAX {
        u64::MAX
    } else {
        (count + frames) as u64
    }
}

/// The session after a start is asked for, and the answer.
pub open spec fn start_model(s: SessionView, config: StreamConfig, path: Seq<char>) -> (
    SessionView,
    Result<WavSpec, AudioError>,
) {
    if s.recording {
        (s, Err(AudioError::AlreadyRecording))
    } else if !config_supported(config) {
        (s, Err(AudioError::UnsupportedConfiguration))
    } else {
        (
            SessionView {
                recording: true,
                output_path: Some(path),
                sink: Some(
                    FrameSink {
                        spec: canonical_spec(config.sample_rate),
                        channels: config.channels,
                        halted: false,
                        frames_written: 0,
                    },
                ),
            },
            Ok(canonical_spec(config.sample_rate)),
        )
    }
}

/// The session after a stop is asked for, and the answer.
pub open spec fn stop_model(s: SessionView) -> (SessionView, Result<FinishedView, AudioError>) {
    if s.recording && s.output_path is Some && s.sink is Some {
        (
            SessionView::idle(),
            Ok(
                FinishedView {
                    path: s.output_path->0,
                    spec: s.sink->0.spec,
                    frames_written: s.sink->0.frames_written,
                    halted: s.sink->0.halted,
                },
            ),
        )
    } else {
        (s, Err(AudioError::NotRecording))
    }
}

/// The session after `written` of `attempted` samples of a block reached the
/// file. A short write halts the capture path; the header and the output
/// file stay as they are.
pub open spec fn write_model(s: SessionView, attempted: usize, written: usize) -> SessionView {
    if s.accepting() {
        SessionView {
            sink: Some(
                FrameSink {
                    halted: written < attempted,
                    frames_written: saturating_count(s.sink->0.frames_written, written),
                    ..s.sink->0
                },
            ),
            ..s
        }
    } else {
        s
    }
}

/// The session after a sequence of write reports, each a pair of samples
/// attempted and samples written.
pub open spec fn after_writes(s: SessionView, writes: Seq<(usize, usize)>) -> SessionView
    decreases writes.len(),
{
    if writes.len() == 0 {
        s
    } else {
        write_model(after_writes(s, writes.drop_last()), writes.last().0, writes.last().1)
    }
}

/// What a block yields when it is accepted: the mono samples to append to
/// the file, and their peak.
#[derive(Debug)]
pub struct CapturedBlock {
    /// The mono samples of the block, in arrival order.
    pub samples: Vec<i16>,
    /// The sample of greatest magnitude among them, if there is any sample.
    pub peak: Option<i16>,
}

/// A recording that was stopped: what is needed to finalize its file.
#[derive(Debug)]
pub struct FinishedRecording {
    /// The file that was recorded into.
    pub path: String,
    /// The header of that file.
    pub spec: WavSpec,
    /// Mono samples that reached the file.
    pub frames_written: u64,
    /// Whether a failed write cut the recording short.
    pub halted: bool,
}

impl View for FinishedRecording {
    type V = FinishedView;

    open spec fn view(&self) -> FinishedView {
        FinishedView {
            path: self.path@,
            spec: self.spec,
            frames_written: self.frames_written,
            halted: self.halted,
        }
    }
}

struct ActiveRecording {
    output_path: String,
    sink: FrameSink,
}

/// A recording session. It is created idle and runs any number of
/// recordings, one after the other.
pub struct SimpleRecorder {
    active: Option<ActiveRecording>,
}

impl View for SimpleRecorder {
    type V = SessionView;

    closed spec fn view(&self) -> SessionView {
        match self.active {
            Some(rec) => SessionView {
                recording: true,
                output_path: Some(rec.output_path@),
                sink: Some(rec.sink),
            },
            None => SessionView::idle(),
        }
    }
}

impl SimpleRecorder {
    #[verifier::type_invariant]
    spec fn well_formed(self) -> bool {
        self@.wf()
    }

    /// A session with no recording running.
    pub fn new() -> (recorder: Self)
        ensures
            recorder@ == SessionView::idle(),
    {
        SimpleRecorder { active: None }
    }

    /// Whether a recording is running.
    pub fn is_recording(&self) -> (recording: bool)
        ensures
            recording == self@.recording,
            self@.wf(),
    {
        proof {
            use_type_invariant(self);
        }
        self.active.is_some()
    }

    /// Whether a delivered block would be accepted.
    pub fn is_accepting(&self) -> (accepting: bool)
        ensures
            accepting == self@.accepting(),
    {
        match &self.active {
            Some(rec) => !rec.sink.halted,
            None => false,
        }
    }

    /// The state of the output file while a recording runs.
    pub fn sink(&self) -> (sink: Option<FrameSink>)
        ensures
            sink == self@.sink,
    {
        match &self.active {
            Some(rec) => Some(rec.sink),
            None => None,
        }
    }

    /// Starts a recording into `output_path` from a stream negotiated as
    /// `config`, and returns the header to create the file with: mono,
    /// 16-bit, at the rate of the stream.
    ///
    /// Fails with `AlreadyRecording` while a recording runs, and with
    /// `UnsupportedConfiguration` when the rate lies outside 8000 to 192000
    /// Hz, the sample format is not one the recorder converts, or the stream
    /// has no channel. A refused start leaves the session as it was.
    pub fn start_recording(&mut self, config: &StreamConfig, output_path: String) -> (started:
        Result<WavSpec, AudioError>)
        ensures
            (final(self)@, started) == start_model(old(self)@, *config, output_path@),
            old(self)@.recording ==> started == Err::<WavSpec, AudioError>(
                AudioError::AlreadyRecording,
            ) && final(self)@ == old(self)@,
            started is Ok <==> !old(self)@.recording && config_supported(*config),
            started is Ok ==> final(self)@.recording && final(self)@.output_path == Some(
                output_path@,
            ) && started == Ok::<WavSpec, AudioError>(canonical_spec(config.sample_rate)),
            final(self)@.wf(),
    {
        proof {
            use_type_invariant(&*self);
        }
        if self.active.is_some() {
            return Err(AudioError::AlreadyRecording);
        }
        let spec = plan_capture(config)?;
        self.active = Some(
            ActiveRecording {
                output_path,
                sink: FrameSink {
                    spec,
                    channels: config.channels,
                    halted: false,
                    frames_written: 0,
                },
            },
        );
        Ok(spec)
    }

    /// Stops the running recording and returns what its file needs to be
    /// finalized. From here on no block is accepted.
    ///
    /// Fails with `NotRecording` when no recording runs.
    pub fn stop_recording(&mut self) -> (stopped: Result<FinishedRecording, AudioError>)
        ensures
            final(self)@ == stop_model(old(self)@).0,
            stopped matches Ok(finished) ==> stop_model(old(self)@).1 == Ok::<
                FinishedView,
                AudioError,
            >(finished@),
            stopped matches Err(e) ==> stop_model(old(self)@).1 == Err::<FinishedView, AudioError>(
                e,
            ),
            !old(self)@.recording ==> (stopped matches Err(e) && e == AudioError::NotRecording)
                && final(self)@ == old(self)@,
            stopped is Ok <==> old(self)@.recording,
            stopped is Ok ==> !final(self)@.recording,
            final(self)@.wf(),
    {
        proof {
            use_type_invariant(&*self);
        }
        let mut previous = SimpleRecorder { active: None };
        core::mem::swap(self, &mut previous);
        match previous.active {
            Some(rec) => Ok(
                FinishedRecording {
                    path: rec.output_path,
                    spec: rec.sink.spec,
                    frames_written: rec.sink.frames_written,
                    halted: rec.sink.halted,
                },
            ),
            None => Err(AudioError::NotRecording),
        }
    }

    /// What to do with a block of canonical samples that the device
    /// delivered: nothing while no recording runs or after a failed write;
    /// else append the block's mono rendering to the file and report its
    /// peak.
    pub fn capture_block(&self, data: &[i16]) -> (captured: Option<CapturedBlock>)
        ensures
            captured is Some <==> self@.accepting(),
            captured matches Some(block) ==> {
                let mono = mono_of(data@, self@.sink->0.channels as int);
                &&& block.samples@ == mono
                &&& mono.len() == 0 ==> block.peak is None
                &&& mono.len() > 0 ==> block.peak == Some(mono[peak_index(mono)])
            },
    {
        proof {
            use_type_invariant(self);
        }
        match &self.active {
            Some(rec) => {
                if rec.sink.halted {
                    return None;
                }
                let samples = to_mono(data, rec.sink.channels);
                let peak = block_peak(samples.as_slice());
                Some(CapturedBlock { samples, peak })
            },
            None => None,
        }
    }

    /// Records how a block's write ended: `written` of `attempted` samples
    /// reached the file. A short write halts the capture path until the
    /// recording is stopped.
    pub fn note_write(&mut self, attempted: usize, written: usize)
        ensures
            final(self)@ == write_model(old(self)@, attempted, written),
            final(self)@.wf(),
    {
        proof {
            use_type_invariant(&*self);
        }
        let next = match &self.active {
            Some(rec) => {
                if rec.sink.halted {
                    None
                } else {
                    Some(
                        FrameSink {
                            spec: rec.sink.spec,
                            channels: rec.sink.channels,
                            halted: written < attempted,
                            frames_written: add_frames(rec.sink.frames_written, written),
                        },
                    )
                }
            },
            None => None,
        };
        if let Some(sink) = next {
            let mut previous = SimpleRecorder { active: None };
            core::mem::swap(self, &mut previous);
            if let Some(rec) = previous.active {
                *self = SimpleRecorder {
                    active: Some(ActiveRecording { output_path: rec.output_path, sink }),
                };
            }
        }
    }
}

/// Adds `frames` to a sample count, saturating.
pub fn add_frames(count: u64, frames: usize) -> (total: u64)
    ensures
        total == saturating_count(count, frames),
{
    if frames as u128 > (u64::MAX - count) as u128 {
        u64::MAX
    } else {
        count + frames as u64
    }
}

/// The answer of a stop once the file was finalized: the location of the
/// file, or `FinalizeFailed` when finalizing failed.
pub fn finish_stop(finished: FinishedRecording, finalized: bool) -> (path: Result<String, AudioError>)
    ensures
        finalized ==> (path matches Ok(p) && p@ == finished@.path),
        !finalized ==> (path matches Err(e) && e == AudioError::FinalizeFailed),
{
    if finalized {
        Ok(finished.path)
    } else {
        Err(AudioError::FinalizeFailed)
    }
}

/// Starting, stopping and reporting a write keep a well-formed session well
/// formed.
pub proof fn lemma_transitions_keep_well_formed(
    s: SessionView,
    config: StreamConfig,
    path: Seq<char>,
    attempted: usize,
    written: usize,
)
    requires
        s.wf(),
    ensures
        start_model(s, config, path).0.wf(),
        stop_model(s).0.wf(),
        write_model(s, attempted, written).wf(),
{
}

/// A stop with no recording running fails with `NotRecording`, on a new
/// session in particular; a start while a recording runs fails with
/// `AlreadyRecording`. Both leave the session as it was.
pub proof fn lemma_lifecycle_refusals(s: SessionView, config: StreamConfig, path: Seq<char>)
    ensures
        stop_model(SessionView::idle()) == (
            SessionView::idle(),
            Err::<FinishedView, AudioError>(AudioError::NotRecording),
        ),
        !s.recording ==> stop_model(s) == (
            s,
            Err::<FinishedView, AudioError>(AudioError::NotRecording),
        ),
        s.recording ==> start_model(s, config, path) == (
            s,
            Err::<WavSpec, AudioError>(AudioError::AlreadyRecording),
        ),
{
}

/// Write reports change neither the output file nor the header of a running
/// recording, and do not end it.
pub proof fn lemma_writes_keep_header(s: SessionView, writes: Seq<(usize, usize)>)
    requires
        s.wf(),
        s.recording,
    ensures
        after_writes(s, writes).wf(),
        after_writes(s, writes).recording,
        after_writes(s, writes).output_path == s.output_path,
        after_writes(s, writes).sink->0.spec == s.sink->0.spec,
        after_writes(s, writes).sink->0.channels == s.sink->0.channels,
    decreases writes.len(),
{
    if writes.len() > 0 {
        lemma_writes_keep_header(s, writes.drop_last());
    }
}

/// Every successful cycle of start and stop, with any write reports in
/// between, ends with a file whose header is mono, 16-bit signed integers,
/// at the negotiated sample rate, and with the session idle again.
pub proof fn lemma_cycle_reports_canonical_header(
    s: SessionView,
    config: StreamConfig,
    path: Seq<char>,
    writes: Seq<(usize, usize)>,
)
    requires
        s.wf(),
        start_model(s, config, path).1 is Ok,
    ensures
        ({
            let started = start_model(s, config, path).0;
            let stopped = stop_model(after_writes(started, writes));
            &&& stopped.0 == SessionView::idle()
            &&& stopped.1 matches Ok(finished)
            &&& finished.path == path
            &&& finished.spec.channels == 1
            &&& finished.spec.bits_per_sample == 16
            &&& finished.spec.sample_format == crate::format::PcmEncoding::Int
            &&& finished.spec.sample_rate == config.sample_rate
        }),
{
    let started = start_model(s, config, path).0;
    lemma_writes_keep_header(started, writes);
}

} // verus!
