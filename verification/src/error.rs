//! The failures that the service reports.

use vstd::prelude::*;

verus! {

/// A failed operation of the service, by category.
#[derive(Debug, PartialEq, Eq)]
pub enum ServiceError {
    /// The recognition engine does not exist on this platform.
    PlatformUnavailable,
    /// A transcription was asked for before the service was initialized.
    NotInitialized,
    /// The engine failed to set itself up; the message is the engine's own.
    EngineInitializationFailed(String),
    /// The engine failed to transcribe, or had no result to give.
    EngineTranscriptionFailed(String),
    /// The sample rate is not a positive finite number.
    InvalidAudioInput,
}

/// The mathematical value of a [`ServiceError`]: the category, and the
/// engine's message as a sequence of characters.
pub enum Failure {
    PlatformUnavailable,
    NotInitialized,
    EngineInitializationFailed(Seq<char>),
    EngineTranscriptionFailed(Seq<char>),
    InvalidAudioInput,
}

impl Failure {
    /// The text shown to a person for this failure. Messages of the engine
    /// are shown as they came.
    pub open spec fn text(self) -> Seq<char> {
        match self {
            Failure::PlatformUnavailable => "ASR only available on macOS"@,
            Failure::NotInitialized => "ASR not initialized"@,
            Failure::EngineInitializationFailed(message) => message,
            Failure::EngineTranscriptionFailed(message) => message,
            Failure::InvalidAudioInput => "Invalid audio input: the sample rate must be positive and finite"@,
        }
    }
}

impl View for ServiceError {
    type V = Failure;

    open spec fn view(&self) -> Failure {
        match self {
            ServiceError::PlatformUnavailable => Failure::PlatformUnavailable,
            ServiceError::NotInitialized => Failure::NotInitialized,
            ServiceError::EngineInitializationFailed(message) => Failure::EngineInitializationFailed(
                message@,
            ),
            ServiceError::EngineTranscriptionFailed(message) => Failure::EngineTranscriptionFailed(
                message@,
            ),
            ServiceError::InvalidAudioInput => Failure::InvalidAudioInput,
        }
    }
}

impl ServiceError {
    /// The human-readable message of this failure.
    pub fn message(&self) -> (text: String)
        ensures
            text@ == self@.text(),
    {
        match self {
            ServiceError::PlatformUnavailable => "ASR only available on macOS".to_owned(),
            ServiceError::NotInitialized => "ASR not initialized".to_owned(),
            ServiceError::EngineInitializationFailed(message) => message.clone(),
            ServiceError::EngineTranscriptionFailed(message) => message.clone(),
            ServiceError::InvalidAudioInput => "Invalid audio input: the sample rate must be positive and finite".to_owned(),
        }
    }
}

} // verus!
