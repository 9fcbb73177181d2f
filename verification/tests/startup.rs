use patchwire::startup::{start_first, start_step, StartAction, StartEvent, StartFailure, StartPhase, MAX_TRIES};

#[test]
fn running_daemon_is_ready_at_once() {
    let (phase, action) = start_first();
    assert_eq!(action, StartAction::Ping);
    assert_eq!(start_step(phase, StartEvent::Answered(true)).1, StartAction::Ready);
}

#[test]
fn service_started_then_answers() {
    let (phase, _) = start_first();
    let (phase, action) = start_step(phase, StartEvent::Answered(false));
    assert_eq!(action, StartAction::StartService);
    let (phase, action) = start_step(phase, StartEvent::ServiceStarted(true));
    assert_eq!(action, StartAction::SleepThenPing);
    let (phase, action) = start_step(phase, StartEvent::Answered(false));
    assert_eq!(action, StartAction::SleepThenPing);
    assert_eq!(phase, StartPhase::AwaitService { tries: 1 });
    assert_eq!(start_step(phase, StartEvent::Answered(true)).1, StartAction::Ready);
}

#[test]
fn silent_service_gives_up_after_twenty_pings() {
    let (mut phase, _) = start_step(StartPhase::Probe, StartEvent::Answered(false));
    let (p, mut action) = start_step(phase, StartEvent::ServiceStarted(true));
    phase = p;
    let mut pings = 0;
    while action == StartAction::SleepThenPing {
        pings += 1;
        let r = start_step(phase, StartEvent::Answered(false));
        phase = r.0;
        action = r.1;
    }
    assert_eq!(pings, MAX_TRIES);
    assert_eq!(action, StartAction::Fail(StartFailure::ServiceSilent));
}

#[test]
fn fallback_spawns_the_program() {
    let (phase, _) = start_step(StartPhase::Probe, StartEvent::Answered(false));
    let (phase, action) = start_step(phase, StartEvent::ServiceStarted(false));
    assert_eq!(action, StartAction::LocateBinary);
    assert_eq!(start_step(phase, StartEvent::BinaryFound(false)).1, StartAction::Fail(StartFailure::BinaryMissing));
    let (phase, action) = start_step(phase, StartEvent::BinaryFound(true));
    assert_eq!(action, StartAction::Spawn);
    assert_eq!(start_step(phase, StartEvent::Spawned(false)).1, StartAction::Fail(StartFailure::SpawnFailed));
    let (mut phase, mut action) = start_step(phase, StartEvent::Spawned(true));
    let mut pings = 0;
    while action == StartAction::SleepThenPing {
        pings += 1;
        let r = start_step(phase, StartEvent::Answered(false));
        phase = r.0;
        action = r.1;
    }
    assert_eq!(pings, MAX_TRIES);
    assert_eq!(action, StartAction::Fail(StartFailure::SpawnedSilent));
}

#[test]
fn out_of_order_event_fails() {
    assert_eq!(start_step(StartPhase::Probe, StartEvent::Spawned(true)).1, StartAction::Fail(StartFailure::Unexpected));
}
