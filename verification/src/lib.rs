//! Capture-session control, peak metering and channel/rate conversion
//! plumbing for a push-to-talk voice keyboard.

use vstd::prelude::*;

pub mod device;
pub mod dictation;
pub mod error;
pub mod format;
pub mod hotkey;
pub mod mixdown;
pub mod peaks;
pub mod recorder;
pub mod resample;
pub mod rounding;
pub mod transcribe;

pub use device::{get_device_hash, get_input_device, get_microphones, AudioDevice};
pub use error::AudioError;
pub use peaks::{send_peaks, PeakMeter};
pub use recorder::SimpleRecorder;
pub use resample::resample;

verus! {

/// Canonical sample representation: signed 16-bit PCM.
pub type SampleType = i16;

} // verus!
