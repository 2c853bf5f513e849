//! The failures that the library reports.

use vstd::prelude::*;

verus! {

/// Why an operation of the library was refused or failed.
#[derive(Debug, Clone, Copy, PartialEq, Eq, Structural)]
pub enum AudioError {
    /// A recording was asked for while one is running.
    AlreadyRecording,
    /// A stop was asked for while nothing is being recorded.
    NotRecording,
    /// No capture device answers to the selector.
    DeviceNotFound,
    /// The device granted a sample rate, channel count or sample format
    /// outside what the recorder supports.
    UnsupportedConfiguration,
    /// The output file could not be created.
    FileCreateFailed,
    /// A sample could not be written to the output file.
    FileWriteFailed,
    /// The output file could not be finalized.
    FinalizeFailed,
    /// A rate or channel conversion was asked for with unusable parameters.
    ResampleParameterInvalid,
}

impl AudioError {
    /// The text that describes this error to a user.
    pub open spec fn message_text(self) -> Seq<char> {
        match self {
            AudioError::AlreadyRecording => "Already recording"@,
            AudioError::NotRecording => "Not currently recording"@,
            AudioError::DeviceNotFound => "Could not find input device"@,
            AudioError::UnsupportedConfiguration => "Unsupported input configuration"@,
            AudioError::FileCreateFailed => "Could not create the output file"@,
            AudioError::FileWriteFailed => "Could not write to the output file"@,
            AudioError::FinalizeFailed => "Could not finalize the output file"@,
            AudioError::ResampleParameterInvalid => "Invalid resampling parameters"@,
        }
    }

    /// Describes this error to a user.
    pub fn message(&self) -> (text: String)
        ensures
            text@ == self.message_text(),
    {
        match self {
            AudioError::AlreadyRecording => "Already recording".to_owned(),
            AudioError::NotRecording => "Not currently recording".to_owned(),
            AudioError::DeviceNotFound => "Could not find input device".to_owned(),
            AudioError::UnsupportedConfiguration => "Unsupported input configuration".to_owned(),
            AudioError::FileCreateFailed => "Could not create the output file".to_owned(),
            AudioError::FileWriteFailed => "Could not write to the output file".to_owned(),
            AudioError::FinalizeFailed => "Could not finalize the output file".to_owned(),
            AudioError::ResampleParameterInvalid => "Invalid resampling parameters".to_owned(),
        }
    }
}

} // verus!
