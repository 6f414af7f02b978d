//! The vocabulary of a sandbox's life: states and why they are left, errors, status and events.
use vstd::prelude::*;

use crate::types::{Deadline, SandboxId};

verus! {

broadcast use vstd::string::group_string_axioms;

/// A point in time, in milliseconds of the clock that the backend was given.
#[derive(Debug, Clone, Copy, PartialEq, Eq, PartialOrd, Ord)]
pub struct Timestamp(pub u64);

/// The name of a backend.
#[derive(Debug, PartialEq, Eq, Hash)]
pub struct SandboxBackendId(String);

impl SandboxBackendId {
    /// The string that the name is.
    pub closed spec fn text(self) -> String {
        self.0
    }

    /// The name that is the string `id` converts into.
    pub fn new(id: impl Into<String>) -> (r: Self)
        ensures
            call_ensures(Into::into, (id,), r.text()),
    {
        SandboxBackendId(id.into())
    }

    /// The name as text.
    pub fn as_str(&self) -> (r: &str)
        ensures
            r@ == self@,
    {
        self.0.as_str()
    }
}

impl Clone for SandboxBackendId {
    fn clone(&self) -> (r: Self)
        ensures
            r == *self,
    {
        SandboxBackendId(self.0.clone())
    }
}

impl View for SandboxBackendId {
    type V = Seq<char>;

    open spec fn view(&self) -> Seq<char> {
        self.text()@
    }
}

/// What of a sandbox outlives a pause.
#[derive(Debug, Clone, Copy, PartialEq, Eq)]
pub enum PauseFidelity {
    /// There is no pausing.
    NoPause,
    /// Processes and memory are gone, the state volume survives.
    StatePreserving,
    /// Memory and processes survive.
    MemoryPreserving,
}

/// The state of a sandbox.
#[derive(Debug, PartialEq, Eq)]
pub enum SandboxState {
    Creating,
    Running,
    Paused,
    Stopping,
    Stopped,
    Destroyed,
    Failed(SandboxFailure),
}

impl SandboxState {
    /// Whether the state is never left again.
    pub open spec fn terminal(self) -> bool {
        self is Stopped || self is Destroyed || self is Failed
    }
}

impl Clone for SandboxState {
    fn clone(&self) -> (r: Self)
        ensures
            r == *self,
    {
        match self {
            SandboxState::Creating => SandboxState::Creating,
            SandboxState::Running => SandboxState::Running,
            SandboxState::Paused => SandboxState::Paused,
            SandboxState::Stopping => SandboxState::Stopping,
            SandboxState::Stopped => SandboxState::Stopped,
            SandboxState::Destroyed => SandboxState::Destroyed,
            SandboxState::Failed(failure) => SandboxState::Failed(failure.clone()),
        }
    }
}

/// Why a sandbox failed.
#[derive(Debug, PartialEq, Eq)]
pub enum SandboxFailure {
    CreateTimeout,
    ReadinessTimeout,
    BackendCrashed,
    OutOfMemory,
    Evicted,
    Killed,
    Backend(String),
}

impl Clone for SandboxFailure {
    fn clone(&self) -> (r: Self)
        ensures
            r == *self,
    {
        match self {
            SandboxFailure::CreateTimeout => SandboxFailure::CreateTimeout,
            SandboxFailure::ReadinessTimeout => SandboxFailure::ReadinessTimeout,
            SandboxFailure::BackendCrashed => SandboxFailure::BackendCrashed,
            SandboxFailure::OutOfMemory => SandboxFailure::OutOfMemory,
            SandboxFailure::Evicted => SandboxFailure::Evicted,
            SandboxFailure::Killed => SandboxFailure::Killed,
            SandboxFailure::Backend(message) => SandboxFailure::Backend(message.clone()),
        }
    }
}

/// How the work of a sandbox ended.
#[derive(Debug, Clone, Copy, PartialEq, Eq)]
pub enum SandboxOutcome {
    Exited(i32),
    TimedOut,
    OutOfMemory,
    Evicted,
    Killed,
    BackendFailure,
}

/// Why a sandbox changed its state.
#[derive(Debug, Clone, Copy, PartialEq, Eq)]
pub enum SandboxTransitionCause {
    Requested,
    DeadlineExceeded,
    BackendReported,
    Reconciled,
}

/// A snapshot of a sandbox.
#[derive(Debug, PartialEq, Eq)]
pub struct SandboxStatus {
    pub id: SandboxId,
    pub backend_id: SandboxBackendId,
    pub state: SandboxState,
    pub seq: u64,
    pub io_generation: u64,
    pub created_at: Timestamp,
    pub state_since: Timestamp,
    pub outcome: Option<SandboxOutcome>,
}

/// A change of a sandbox's state. The events of a sandbox are numbered by `seq`, without gaps.
#[derive(Debug, PartialEq, Eq)]
pub struct SandboxStatusEvent {
    pub id: SandboxId,
    pub seq: u64,
    pub at: Timestamp,
    pub state: SandboxState,
    pub cause: SandboxTransitionCause,
}

/// What an event tells.
pub struct EventModel {
    pub id: Seq<char>,
    pub seq: u64,
    pub at: Timestamp,
    pub state: SandboxState,
    pub cause: SandboxTransitionCause,
}

impl View for SandboxStatusEvent {
    type V = EventModel;

    open spec fn view(&self) -> EventModel {
        EventModel {
            id: self.id@,
            seq: self.seq,
            at: self.at,
            state: self.state,
            cause: self.cause,
        }
    }
}

impl Clone for SandboxStatusEvent {
    fn clone(&self) -> (r: Self)
        ensures
            r == *self,
    {
        SandboxStatusEvent {
            id: self.id.clone(),
            seq: self.seq,
            at: self.at,
            state: self.state.clone(),
            cause: self.cause,
        }
    }
}

/// What a sandbox uses.
#[derive(Debug, Clone, Copy, PartialEq, Eq)]
pub struct SandboxUsage {
    pub memory_mb: u32,
    pub cpu_millis: u32,
    pub disk_mb: u32,
    pub pids: u32,
}

/// What a backend can do.
#[derive(Debug, Clone, Copy, PartialEq, Eq)]
pub struct SandboxBackendCapabilities {
    pub pause_fidelity: PauseFidelity,
    pub state_volumes: bool,
    pub warm_pool: bool,
    pub gpu: bool,
    pub max_memory_mb: u32,
}

/// Whether a backend takes more work.
#[derive(Debug, PartialEq, Eq)]
pub enum SandboxBackendHealth {
    Ready { available_slots: Option<u32> },
    Saturated,
    Degraded(String),
    Unavailable(String),
}

/// A sandbox that a backend can observe.
#[derive(Debug, PartialEq, Eq)]
pub struct DiscoveredSandbox {
    pub id: SandboxId,
    pub backend_id: SandboxBackendId,
    pub state: SandboxState,
    pub artifacts: SandboxObservedArtifacts,
}

/// By what a sandbox was observed.
#[derive(Debug, PartialEq, Eq)]
pub struct SandboxObservedArtifacts {
    pub pid: Option<u32>,
    pub crd_uid: Option<String>,
    pub pod_name: Option<String>,
    pub pvc_name: Option<String>,
}

/// What destroying a sandbox came to: it was torn down, or there was nothing on record to tear
/// down.
#[derive(Debug, Clone, Copy, PartialEq, Eq)]
pub enum SandboxDestroyed {
    Destroyed,
    Leaked,
}

/// The errors of operations on sandboxes.
#[derive(Debug)]
pub enum SandboxError {
    NotFound(SandboxId),
    Terminal(SandboxState),
    InvalidTransition { from: SandboxState, op: &'static str },
    Unsupported(&'static str),
    StaleIoGeneration { stale: u64, current: u64 },
    Timeout(Deadline),
    Cancelled,
    Backend(std::io::Error),
}

// ---------------------------------------------------------------------------
// Laws
// ---------------------------------------------------------------------------

/// A sandbox has come to its end if and only if it was stopped, destroyed, or failed for whatever
/// reason.
pub proof fn law_ends(failure: SandboxFailure)
    ensures
        SandboxState::Stopped.terminal(),
        SandboxState::Destroyed.terminal(),
        SandboxState::Failed(failure).terminal(),
        !SandboxState::Creating.terminal(),
        !SandboxState::Running.terminal(),
        !SandboxState::Paused.terminal(),
        !SandboxState::Stopping.terminal(),
{
}

/// An event tells what it holds.
pub proof fn law_events_tell_what_they_hold(event: SandboxStatusEvent)
    ensures
        event@.id == event.id@,
        event@.seq == event.seq,
        event@.at == event.at,
        event@.state == event.state,
        event@.cause == event.cause,
{
}

/// The name of a backend is the text that it was made of.
pub proof fn law_backend_names_keep_their_text(a: String, x: SandboxBackendId, shown: &str)
    requires
        call_ensures(SandboxBackendId::new, (a,), x),
        call_ensures(SandboxBackendId::as_str, (&x,), shown),
    ensures
        shown@ == a@,
{
}

} // verus!
