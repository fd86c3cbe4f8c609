//! Speech-to-text service lifecycle and sample-rate conversion.
//!
//! The crate holds the decisions of a transcription service (when the
//! recognition engine may be reached, how its replies change the state of the
//! service, which failure a caller sees) and a linear-interpolation
//! resampler that brings audio of any rate to the 16 kHz the engine expects.
//! Everything here is computed on plain values; talking to the engine and to
//! the host runtime is left to the caller.

pub mod error;
pub mod rate;
pub mod resample;
pub mod service;
