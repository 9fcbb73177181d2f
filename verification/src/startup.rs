use vstd::prelude::*;

verus! {

/// How many times the window pings a daemon it has just started before it
/// gives up (500 ms apart).
pub const MAX_TRIES: u32 = 20;

/// Where the window is in making sure the daemon runs.
#[derive(Debug, Clone, Copy, PartialEq, Eq, Structural)]
pub enum StartPhase {
    /// Asking whether a daemon already answers.
    Probe,
    /// The user service was asked to start; `tries` pings have gone
    /// unanswered since.
    AwaitService { tries: u32 },
    /// Looking for the daemon program next to the window's own.
    Locate,
    /// The daemon program was spawned; `tries` pings have gone unanswered
    /// since.
    AwaitSpawned { tries: u32 },
}

/// What happened since the last action.
#[derive(Debug, Clone, Copy, PartialEq, Eq, Structural)]
pub enum StartEvent {
    /// A ping came back: whether the daemon answered with some sinks.
    Answered(bool),
    /// Whether `systemctl --user start patchwire` succeeded.
    ServiceStarted(bool),
    /// Whether the daemon program was found.
    BinaryFound(bool),
    /// Whether the daemon program could be spawned.
    Spawned(bool),
}

/// Why the daemon could not be started.
#[derive(Debug, Clone, Copy, PartialEq, Eq, Structural)]
pub enum StartFailure {
    /// The service started but never answered.
    ServiceSilent,
    /// No daemon program was found.
    BinaryMissing,
    /// The daemon program could not be spawned.
    SpawnFailed,
    /// The spawned daemon never answered.
    SpawnedSilent,
    /// An event that the current phase does not wait for.
    Unexpected,
}

/// What to do next.
#[derive(Debug, Clone, Copy, PartialEq, Eq, Structural)]
pub enum StartAction {
    Ping,
    StartService,
    SleepThenPing,
    LocateBinary,
    Spawn,
    Ready,
    Fail(StartFailure),
}

/// After one more unanswered ping while waiting in a phase that has seen
/// `tries` of them: wait and ping again, or give up once `MAX_TRIES` went
/// unanswered.
pub open spec fn retry(tries: u32, waiting: spec_fn(u32) -> StartPhase, failure: StartFailure) -> (
    StartPhase,
    StartAction,
) {
    if tries + 1 < MAX_TRIES {
        (waiting((tries + 1) as u32), StartAction::SleepThenPing)
    } else {
        (waiting(MAX_TRIES), StartAction::Fail(failure))
    }
}

/// The next phase and action: ping first; where nothing answers, start the
/// user service and ping until it answers; where the service cannot start,
/// find the program, spawn it and ping until it answers.
pub open spec fn start_spec(phase: StartPhase, event: StartEvent) -> (StartPhase, StartAction) {
    match (phase, event) {
        (_, StartEvent::Answered(true)) => (phase, StartAction::Ready),
        (StartPhase::Probe, StartEvent::Answered(false)) => (StartPhase::AwaitService { tries: 0 }, StartAction::StartService),
        (StartPhase::AwaitService { tries: 0 }, StartEvent::ServiceStarted(true)) => (phase, StartAction::SleepThenPing),
        (StartPhase::AwaitService { tries: 0 }, StartEvent::ServiceStarted(false)) => (StartPhase::Locate, StartAction::LocateBinary),
        (StartPhase::AwaitService { tries }, StartEvent::Answered(false)) => retry(
            tries,
            |t: u32| StartPhase::AwaitService { tries: t },
            StartFailure::ServiceSilent,
        ),
        (StartPhase::Locate, StartEvent::BinaryFound(true)) => (StartPhase::AwaitSpawned { tries: 0 }, StartAction::Spawn),
        (StartPhase::Locate, StartEvent::BinaryFound(false)) => (phase, StartAction::Fail(StartFailure::BinaryMissing)),
        (StartPhase::AwaitSpawned { tries: 0 }, StartEvent::Spawned(true)) => (phase, StartAction::SleepThenPing),
        (StartPhase::AwaitSpawned { tries: 0 }, StartEvent::Spawned(false)) => (phase, StartAction::Fail(StartFailure::SpawnFailed)),
        (StartPhase::AwaitSpawned { tries }, StartEvent::Answered(false)) => retry(
            tries,
            |t: u32| StartPhase::AwaitSpawned { tries: t },
            StartFailure::SpawnedSilent,
        ),
        _ => (phase, StartAction::Fail(StartFailure::Unexpected)),
    }
}

/// The number of unanswered pings a phase has counted.
pub open spec fn tries_of(phase: StartPhase) -> u32 {
    match phase {
        StartPhase::AwaitService { tries } => tries,
        StartPhase::AwaitSpawned { tries } => tries,
        _ => 0,
    }
}

/// The phase and action the window starts with: ping.
pub fn start_first() -> (r: (StartPhase, StartAction))
    ensures
        r == (StartPhase::Probe, StartAction::Ping),
{
    (StartPhase::Probe, StartAction::Ping)
}

/// One step of making sure the daemon runs.
pub fn start_step(phase: StartPhase, event: StartEvent) -> (r: (StartPhase, StartAction))
    ensures
        r == start_spec(phase, event),
{
    match (phase, event) {
        (_, StartEvent::Answered(true)) => (phase, StartAction::Ready),
        (StartPhase::Probe, StartEvent::Answered(false)) => (StartPhase::AwaitService { tries: 0 }, StartAction::StartService),
        (StartPhase::AwaitService { tries: 0 }, StartEvent::ServiceStarted(true)) => (phase, StartAction::SleepThenPing),
        (StartPhase::AwaitService { tries: 0 }, StartEvent::ServiceStarted(false)) => (StartPhase::Locate, StartAction::LocateBinary),
        (StartPhase::AwaitService { tries }, StartEvent::Answered(false)) => {
            if tries < MAX_TRIES - 1 {
                (StartPhase::AwaitService { tries: tries + 1 }, StartAction::SleepThenPing)
            } else {
                (StartPhase::AwaitService { tries: MAX_TRIES }, StartAction::Fail(StartFailure::ServiceSilent))
            }
        },
        (StartPhase::Locate, StartEvent::BinaryFound(true)) => (StartPhase::AwaitSpawned { tries: 0 }, StartAction::Spawn),
        (StartPhase::Locate, StartEvent::BinaryFound(false)) => (phase, StartAction::Fail(StartFailure::BinaryMissing)),
        (StartPhase::AwaitSpawned { tries: 0 }, StartEvent::Spawned(true)) => (phase, StartAction::SleepThenPing),
        (StartPhase::AwaitSpawned { tries: 0 }, StartEvent::Spawned(false)) => (phase, StartAction::Fail(StartFailure::SpawnFailed)),
        (StartPhase::AwaitSpawned { tries }, StartEvent::Answered(false)) => {
            if tries < MAX_TRIES - 1 {
                (StartPhase::AwaitSpawned { tries: tries + 1 }, StartAction::SleepThenPing)
            } else {
                (StartPhase::AwaitSpawned { tries: MAX_TRIES }, StartAction::Fail(StartFailure::SpawnedSilent))
            }
        },
        _ => (phase, StartAction::Fail(StartFailure::Unexpected)),
    }
}

/// A daemon that answers is ready, whatever the phase.
pub proof fn law_answer_means_ready(phase: StartPhase)
    ensures
        start_spec(phase, StartEvent::Answered(true)).1 == StartAction::Ready,
{
}

/// The count of unanswered pings never passes `MAX_TRIES`, and a step that
/// asks to ping again leaves it below `MAX_TRIES`.
pub proof fn law_tries_bounded(phase: StartPhase, event: StartEvent)
    requires
        tries_of(phase) <= MAX_TRIES,
    ensures
        tries_of(start_spec(phase, event).0) <= MAX_TRIES,
        start_spec(phase, event).1 == StartAction::SleepThenPing ==> tries_of(start_spec(phase, event).0) < MAX_TRIES,
{
}

/// A wait that keeps going unanswered gives up: from any count, an
/// unanswered ping either counts one more or fails.
pub proof fn law_wait_ends(phase: StartPhase)
    requires
        phase is AwaitService || phase is AwaitSpawned,
        tries_of(phase) < MAX_TRIES,
    ensures
        ({
            let (next, action) = start_spec(phase, StartEvent::Answered(false));
            (action == StartAction::SleepThenPing && tries_of(next) == tries_of(phase) + 1) || action is Fail
        }),
{
}

} // verus!
