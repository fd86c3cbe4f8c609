//! The life of a transcription service.
//!
//! A service starts uninitialized, becomes initialized when the engine has
//! set itself up, and hands audio to the engine only from then on. The
//! library decides; the caller talks to the engine. Before a request goes
//! out the caller asks whether it may (`check_available`, `check_ready`);
//! when the engine has answered, the caller hands the answer in and gets
//! back the new state and what to tell the host.

use crate::error::{Failure, ServiceError};
use vstd::prelude::*;

verus! {

/// Whether the engine has been set up for a service.
#[derive(Debug, Clone, Copy, PartialEq, Eq, Structural)]
pub enum ServiceState {
    Uninitialized,
    Initialized,
}

/// What the engine reports when it fails.
#[derive(Debug, PartialEq, Eq)]
pub struct FluidAudioError {
    pub message: String,
    pub code: isize,
}

/// What the engine has heard: the text, and how sure it is of it. The
/// confidence is a binary64 number, carried as its bits.
#[derive(Debug, PartialEq, Eq)]
pub struct TranscriptionResult {
    pub text: String,
    pub confidence_bits: u64,
}

/// What the engine answers to a request to set itself up.
pub type InitializeReply = Result<(), FluidAudioError>;

/// What the engine answers to a request to transcribe: a result, nothing,
/// or a failure.
pub type TranscribeReply = Result<Option<TranscriptionResult>, FluidAudioError>;

/// The state of a service after the engine has answered a request to set
/// itself up: initialized if the engine succeeded, else as before.
pub open spec fn after_initialize(state: ServiceState, succeeded: bool) -> ServiceState {
    if succeeded {
        ServiceState::Initialized
    } else {
        state
    }
}

/// What the caller of `initialize` is told.
pub open spec fn initialize_outcome(reply: InitializeReply) -> Result<(), Failure> {
    match reply {
        Ok(_) => Ok(()),
        Err(error) => Err(Failure::EngineInitializationFailed(error.message@)),
    }
}

/// Whether a service in `state` may hand audio to the engine.
pub open spec fn readiness(state: ServiceState) -> Result<(), Failure> {
    match state {
        ServiceState::Initialized => Ok(()),
        ServiceState::Uninitialized => Err(Failure::NotInitialized),
    }
}

/// What the caller of `transcribe` is told by a service in `state`, when the
/// engine would answer `reply`. An uninitialized service refuses whatever
/// the engine would say.
pub open spec fn transcribe_outcome(state: ServiceState, reply: TranscribeReply) -> Result<
    TranscriptionResult,
    Failure,
> {
    match state {
        ServiceState::Uninitialized => Err(Failure::NotInitialized),
        ServiceState::Initialized => match reply {
            Ok(Some(result)) => Ok(result),
            Ok(None) => Err(Failure::EngineTranscriptionFailed("Transcription returned no result"@)),
            Err(error) => Err(Failure::EngineTranscriptionFailed(error.message@)),
        },
    }
}

/// Whether `result` is `expected`, the error taken by its view.
pub open spec fn agrees<T>(result: Result<T, ServiceError>, expected: Result<T, Failure>) -> bool {
    match expected {
        Ok(value) => result == Ok::<T, ServiceError>(value),
        Err(failure) => result is Err && result->Err_0@ == failure,
    }
}

/// The service on a platform that has the engine.
#[derive(Debug, Clone, Copy, PartialEq, Eq)]
pub struct FluidASR {
    state: ServiceState,
}

impl View for FluidASR {
    type V = ServiceState;

    closed spec fn view(&self) -> ServiceState {
        self.state
    }
}

impl FluidASR {
    /// A service that has not been initialized. The engine is not touched.
    pub fn new() -> (service: Self)
        ensures
            service@ == ServiceState::Uninitialized,
    {
        FluidASR { state: ServiceState::Uninitialized }
    }

    /// Whether the engine has been set up for this service.
    pub fn is_initialized(&self) -> (b: bool)
        ensures
            b == (self@ == ServiceState::Initialized),
    {
        self.state == ServiceState::Initialized
    }

    /// Takes the engine's answer to a request to set itself up. Success
    /// makes the service initialized; a failure leaves it as it was and is
    /// handed on with the engine's message.
    ///
    /// A service may be initialized again: the engine is asked again, and the
    /// caller is told what it answered. The service stays initialized even
    /// where that later attempt fails.
    pub fn initialize(&mut self, reply: InitializeReply) -> (r: Result<(), ServiceError>)
        ensures
            final(self)@ == after_initialize(old(self)@, reply is Ok),
            agrees(r, initialize_outcome(reply)),
    {
        match reply {
            Ok(_) => {
                self.state = ServiceState::Initialized;
                Ok(())
            },
            Err(error) => Err(ServiceError::EngineInitializationFailed(error.message)),
        }
    }

    /// Whether audio may be handed to the engine now: only once the service
    /// is initialized.
    pub fn check_ready(&self) -> (r: Result<(), ServiceError>)
        ensures
            agrees(r, readiness(self@)),
    {
        match self.state {
            ServiceState::Initialized => Ok(()),
            ServiceState::Uninitialized => Err(ServiceError::NotInitialized),
        }
    }

    /// Takes the engine's answer to a request to transcribe. The engine's
    /// result is handed on unchanged; a failure, or no result, is a failed
    /// transcription. A service that is not initialized refuses.
    pub fn transcribe(&self, reply: TranscribeReply) -> (r: Result<
        TranscriptionResult,
        ServiceError,
    >)
        ensures
            agrees(r, transcribe_outcome(self@, reply)),
    {
        match self.state {
            ServiceState::Uninitialized => Err(ServiceError::NotInitialized),
            ServiceState::Initialized => match reply {
                Ok(Some(result)) => Ok(result),
                Ok(None) => Err(
                    ServiceError::EngineTranscriptionFailed(
                        "Transcription returned no result".to_owned(),
                    ),
                ),
                Err(error) => Err(ServiceError::EngineTranscriptionFailed(error.message)),
            },
        }
    }
}

/// What a host is told by a service whose platform may lack the engine:
/// with an engine, what the service in its state says; without one, that
/// the platform has none.
pub open spec fn on_platform<T>(
    state: Option<ServiceState>,
    with_engine: spec_fn(ServiceState) -> Result<T, Failure>,
) -> Result<T, Failure> {
    match state {
        Some(state) => with_engine(state),
        None => Err(Failure::PlatformUnavailable),
    }
}

/// The service as a host sees it, on any platform. Where the platform has
/// no engine, every request that needs one fails as unavailable.
#[derive(Debug, Clone, Copy, PartialEq, Eq)]
pub struct AsrService {
    inner: Option<FluidASR>,
}

impl View for AsrService {
    type V = Option<ServiceState>;

    closed spec fn view(&self) -> Option<ServiceState> {
        match self.inner {
            Some(service) => Some(service@),
            None => None,
        }
    }
}

impl AsrService {
    /// A service that has not been initialized, on a platform that has the
    /// engine or on one that has not. The engine is not touched.
    pub fn new(engine_available: bool) -> (service: Self)
        ensures
            service@ == (if engine_available {
                Some(ServiceState::Uninitialized)
            } else {
                None::<ServiceState>
            }),
    {
        if engine_available {
            AsrService { inner: Some(FluidASR::new()) }
        } else {
            AsrService { inner: None }
        }
    }

    /// Whether there is an engine to ask.
    pub fn check_available(&self) -> (r: Result<(), ServiceError>)
        ensures
            agrees(r, on_platform(self@, |state: ServiceState| Ok::<(), Failure>(()))),
    {
        match self.inner {
            Some(_) => Ok(()),
            None => Err(ServiceError::PlatformUnavailable),
        }
    }

    /// Takes the engine's answer to a request to set itself up, as
    /// `FluidASR::initialize` does.
    pub fn initialize(&mut self, reply: InitializeReply) -> (r: Result<(), ServiceError>)
        ensures
            final(self)@ == (match old(self)@ {
                Some(state) => Some(after_initialize(state, reply is Ok)),
                None => None,
            }),
            agrees(r, on_platform(old(self)@, |state: ServiceState| initialize_outcome(reply))),
    {
        match self.inner {
            Some(mut service) => {
                let r = service.initialize(reply);
                self.inner = Some(service);
                r
            },
            None => Err(ServiceError::PlatformUnavailable),
        }
    }

    /// Whether the engine holds its models already. A platform without the
    /// engine holds none.
    pub fn models_exist(engine: Option<bool>) -> (b: bool)
        ensures
            b == (engine == Some(true)),
    {
        match engine {
            Some(present) => present,
            None => false,
        }
    }

    /// Where the engine keeps its models, as the engine says it.
    pub fn get_model_path(engine: Option<String>) -> (r: Result<String, ServiceError>)
        ensures
            match engine {
                Some(path) => r == Ok::<String, ServiceError>(path),
                None => r == Err::<String, ServiceError>(ServiceError::PlatformUnavailable),
            },
    {
        match engine {
            Some(path) => Ok(path),
            None => Err(ServiceError::PlatformUnavailable),
        }
    }

    /// Whether audio may be handed to the engine now: only where there is
    /// an engine, and once the service is initialized.
    pub fn check_ready(&self) -> (r: Result<(), ServiceError>)
        ensures
            agrees(r, on_platform(self@, |state: ServiceState| readiness(state))),
    {
        match &self.inner {
            Some(service) => service.check_ready(),
            None => Err(ServiceError::PlatformUnavailable),
        }
    }

    /// Takes the engine's answer to a request to transcribe, as
    /// `FluidASR::transcribe` does.
    pub fn transcribe(&self, reply: TranscribeReply) -> (r: Result<
        TranscriptionResult,
        ServiceError,
    >)
        ensures
            agrees(r, on_platform(self@, |state: ServiceState| transcribe_outcome(state, reply))),
    {
        match &self.inner {
            Some(service) => service.transcribe(reply),
            None => Err(ServiceError::PlatformUnavailable),
        }
    }
}

/// The state of a service after the engine has answered to a run of
/// requests to set itself up, one after the other; `true` is a success.
pub open spec fn after_all(state: ServiceState, outcomes: Seq<bool>) -> ServiceState
    decreases outcomes.len(),
{
    if outcomes.len() == 0 {
        state
    } else {
        after_initialize(after_all(state, outcomes.drop_last()), outcomes.last())
    }
}

/// How often the state of a service changes in such a run.
pub open spec fn transitions(state: ServiceState, outcomes: Seq<bool>) -> nat
    decreases outcomes.len(),
{
    if outcomes.len() == 0 {
        0
    } else {
        let before = after_all(state, outcomes.drop_last());
        let changed: nat = if after_initialize(before, outcomes.last()) != before {
            1
        } else {
            0
        };
        transitions(state, outcomes.drop_last()) + changed
    }
}

/// A service is initialized after a run of answers if and only if it was
/// before, or one of the answers was a success. On the way its state changes
/// at most once, and exactly once where it began uninitialized and an answer
/// was a success: however many requests to initialize there are, the service
/// passes from uninitialized to initialized a single time and never back.
pub proof fn lemma_single_transition(state: ServiceState, outcomes: Seq<bool>)
    ensures
        after_all(state, outcomes) == ServiceState::Initialized <==> (state
            == ServiceState::Initialized || outcomes.contains(true)),
        transitions(state, outcomes) <= 1,
        transitions(state, outcomes) == 1 <==> (state == ServiceState::Uninitialized
            && outcomes.contains(true)),
    decreases outcomes.len(),
{
    if outcomes.len() > 0 {
        let earlier = outcomes.drop_last();
        lemma_single_transition(state, earlier);
        assert(outcomes.contains(true) <==> (earlier.contains(true) || outcomes.last())) by {
            if earlier.contains(true) {
                let i = choose|i: int| 0 <= i < earlier.len() && earlier[i];
                assert(outcomes[i]);
            }
            if outcomes.last() {
                assert(outcomes[outcomes.len() - 1]);
            }
            if outcomes.contains(true) {
                let i = choose|i: int| 0 <= i < outcomes.len() && outcomes[i];
                if i < earlier.len() {
                    assert(earlier[i]);
                }
            }
        }
    }
}

/// A service that is initialized stays so, whatever the engine answers
/// afterwards.
pub proof fn lemma_initialized_is_permanent(
    state: ServiceState,
    earlier: Seq<bool>,
    later: Seq<bool>,
)
    requires
        after_all(state, earlier) == ServiceState::Initialized,
    ensures
        after_all(state, earlier + later) == ServiceState::Initialized,
{
    lemma_single_transition(state, earlier);
    lemma_single_transition(state, earlier + later);
    if earlier.contains(true) {
        let i = choose|i: int| 0 <= i < earlier.len() && earlier[i];
        assert((earlier + later)[i]);
    }
}

/// A service that was never initialized, whatever failed attempts it has
/// seen, refuses to transcribe and does not let the request reach the
/// engine: its answer does not depend on what the engine would say.
pub proof fn lemma_uninitialized_service_refuses(outcomes: Seq<bool>, reply: TranscribeReply)
    requires
        !outcomes.contains(true),
    ensures
        after_all(ServiceState::Uninitialized, outcomes) == ServiceState::Uninitialized,
        readiness(after_all(ServiceState::Uninitialized, outcomes)) == Err::<(), Failure>(
            Failure::NotInitialized,
        ),
        transcribe_outcome(after_all(ServiceState::Uninitialized, outcomes), reply) == Err::<
            TranscriptionResult,
            Failure,
        >(Failure::NotInitialized),
{
    lemma_single_transition(ServiceState::Uninitialized, outcomes);
}

} // verus!
