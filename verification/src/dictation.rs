//! The push-to-talk cycle: what the hotkey starts and stops, and what is
//! done with a finished recording.

use vstd::prelude::*;

verus! {

/// The shortest recording, in milliseconds, that is transcribed.
pub const MIN_RECORDING_MILLIS: u64 = 100;

/// The least number of samples handed to the recogniser: 1.1 s at 16 kHz.
pub const MIN_RECOGNISER_SAMPLES: usize = 17600;

/// The peak magnitude that adds one cell to the level bar.
pub const LEVEL_STEP: i32 = 3280;

/// The greatest length of the level bar, in cells.
pub const LEVEL_CELLS: usize = 10;

/// What the hotkey asks for.
#[derive(Debug, Clone, Copy, PartialEq, Eq, Structural)]
pub enum TalkAction {
    /// Start a recording.
    Start,
    /// Stop the recording and process it.
    Stop,
    /// Nothing.
    Ignore,
}

/// What becomes of a finished recording.
#[derive(Debug, Clone, Copy, PartialEq, Eq, Structural)]
pub enum RecordingFate {
    /// It is too short: delete it.
    Discard,
    /// Convert it and hand it to the recogniser.
    Transcribe,
}

/// What a transcript amounts to.
#[derive(Debug, Clone, Copy, PartialEq, Eq, Structural)]
pub enum TranscriptKind {
    /// Nothing was transcribed.
    Empty,
    /// The recogniser heard no speech.
    BlankAudio,
    /// Text to be typed.
    Text,
}

/// What the hotkey asks for when it goes down or up while a recording runs
/// or not: a press starts one if none runs, a release stops the one that
/// runs.
pub open spec fn action_for(recording: bool, pressed: bool) -> TalkAction {
    if pressed && !recording {
        TalkAction::Start
    } else if !pressed && recording {
        TalkAction::Stop
    } else {
        TalkAction::Ignore
    }
}

/// Whether a recording runs after the hotkey went down or up.
pub open spec fn recording_after(recording: bool, pressed: bool) -> bool {
    match action_for(recording, pressed) {
        TalkAction::Start => true,
        TalkAction::Stop => false,
        TalkAction::Ignore => recording,
    }
}

/// The number of cells of the level bar for a peak: one for every 3280 of
/// its magnitude, at most ten.
pub open spec fn level_cells(peak: i16) -> int {
    let cells = crate::mixdown::magnitude(peak) / (LEVEL_STEP as int);
    if cells > LEVEL_CELLS {
        LEVEL_CELLS as int
    } else {
        cells
    }
}

/// The number of samples after padding to the recogniser's minimum.
pub open spec fn padded_len_of(len: usize) -> usize {
    if len < MIN_RECOGNISER_SAMPLES {
        MIN_RECOGNISER_SAMPLES
    } else {
        len
    }
}

/// The push-to-talk switch: whether a recording is taken to be running.
pub struct PushToTalk {
    recording: bool,
}

impl PushToTalk {
    /// Whether a recording is taken to be running.
    pub closed spec fn recording(&self) -> bool {
        self.recording
    }

    /// A switch with no recording running.
    pub fn new() -> (switch: Self)
        ensures
            !switch.recording(),
    {
        PushToTalk { recording: false }
    }

    /// Whether a recording is taken to be running.
    pub fn is_recording(&self) -> (recording: bool)
        ensures
            recording == self.recording(),
    {
        self.recording
    }

    /// Takes a change of the hotkey and says what to do.
    pub fn on_hotkey(&mut self, pressed: bool) -> (action: TalkAction)
        ensures
            action == action_for(old(self).recording(), pressed),
            final(self).recording() == recording_after(old(self).recording(), pressed),
    {
        if pressed && !self.recording {
            self.recording = true;
            TalkAction::Start
        } else if !pressed && self.recording {
            self.recording = false;
            TalkAction::Stop
        } else {
            TalkAction::Ignore
        }
    }

    /// Takes back a start that could not be carried out.
    pub fn start_failed(&mut self)
        ensures
            !final(self).recording(),
    {
        self.recording = false;
    }
}

/// Decides what becomes of a recording that lasted `millis` milliseconds,
/// if its duration is known: one of less than 100 ms is discarded.
pub fn fate_of_recording(millis: Option<u64>) -> (fate: RecordingFate)
    ensures
        fate == RecordingFate::Discard <==> (millis matches Some(m) && m < MIN_RECORDING_MILLIS),
{
    match millis {
        Some(m) => if m < MIN_RECORDING_MILLIS {
            RecordingFate::Discard
        } else {
            RecordingFate::Transcribe
        },
        None => RecordingFate::Transcribe,
    }
}

/// The number of samples to hand to the recogniser for audio of `len`
/// samples: audio shorter than the minimum is padded to it.
pub fn padded_len(len: usize) -> (padded: usize)
    ensures
        padded == padded_len_of(len),
{
    if len < MIN_RECOGNISER_SAMPLES {
        MIN_RECOGNISER_SAMPLES
    } else {
        len
    }
}

/// The length of the level bar for a peak.
pub fn level_bar_len(peak: i16) -> (cells: usize)
    ensures
        cells == level_cells(peak),
        cells <= LEVEL_CELLS,
{
    let magnitude = crate::mixdown::magnitude_of(peak);
    let cells = (magnitude / LEVEL_STEP) as usize;
    if cells > LEVEL_CELLS {
        LEVEL_CELLS
    } else {
        cells
    }
}

/// Classifies a transcript that was trimmed of surrounding white space.
pub fn classify_transcript(trimmed: &str) -> (kind: TranscriptKind)
    ensures
        trimmed@.len() == 0 ==> kind == TranscriptKind::Empty,
        trimmed@ == "[BLANK_AUDIO]"@ ==> kind == TranscriptKind::BlankAudio,
        trimmed@.len() != 0 && trimmed@ != "[BLANK_AUDIO]"@ ==> kind == TranscriptKind::Text,
{
    proof {
        reveal_strlit("[BLANK_AUDIO]");
    }
    if trimmed.is_empty() {
        TranscriptKind::Empty
    } else if trimmed.to_owned() == "[BLANK_AUDIO]".to_owned() {
        TranscriptKind::BlankAudio
    } else {
        TranscriptKind::Text
    }
}

} // verus!
