use scm_fleet::supervisor::{
    Command, Observation, Phase, Supervisor, BACKOFF_MS, IDLE_MS, POLL_MS,
};

#[test]
fn supervisor_constants() {
    assert_eq!(BACKOFF_MS, 5_000);
    assert_eq!(POLL_MS, 1_000);
    assert_eq!(IDLE_MS, 60_000);
}

#[test]
fn subprocess_version_restart_scenario() {
    let (mut s, first) = Supervisor::begin(false, 1_000);
    assert_eq!(first, Command::Spawn);
    assert_eq!(s.attempts, 1);
    assert_eq!(s.step(Observation::Started), Command::PollAfter(1_000));
    assert_eq!(s.step(Observation::Alive(1_000)), Command::PollAfter(1_000));
    assert_eq!(s.attempts, 1);
    assert_eq!(s.step(Observation::Alive(2_000)), Command::KillAndSpawn);
    assert_eq!(s.version, 2_000);
    assert_eq!(s.attempts, 2);
    assert_eq!(s.phase, Phase::Starting);
    assert_eq!(s.step(Observation::Started), Command::PollAfter(1_000));
    assert_eq!(s.step(Observation::Alive(2_000)), Command::PollAfter(1_000));
    assert_eq!(s.attempts, 2);
}

#[test]
fn clean_exit_ends_supervision() {
    let (mut s, _) = Supervisor::begin(false, 1);
    let _ = s.step(Observation::Started);
    assert_eq!(s.step(Observation::ExitedClean), Command::Halt);
    assert_eq!(s.phase, Phase::Stopped);
    for o in [
        Observation::Started,
        Observation::StartFailed,
        Observation::Alive(9),
        Observation::ExitedClean,
        Observation::Crashed,
        Observation::Unknown,
    ] {
        assert_eq!(s.step(o), Command::Halt);
    }
    assert_eq!(s.attempts, 1);
}

#[test]
fn crash_restarts_after_backoff() {
    let (mut s, _) = Supervisor::begin(false, 1);
    let _ = s.step(Observation::Started);
    assert_eq!(s.step(Observation::Crashed), Command::SpawnAfter(5_000));
    assert_eq!(s.attempts, 2);
    assert_eq!(s.phase, Phase::Starting);
    assert_eq!(s.step(Observation::Started), Command::PollAfter(1_000));
    assert_eq!(s.step(Observation::Unknown), Command::SpawnAfter(5_000));
    assert_eq!(s.attempts, 3);
}

#[test]
fn failed_start_is_retried_after_backoff() {
    let (mut s, _) = Supervisor::begin(false, 1);
    assert_eq!(s.step(Observation::StartFailed), Command::SpawnAfter(5_000));
    assert_eq!(s.step(Observation::StartFailed), Command::SpawnAfter(5_000));
    assert_eq!(s.attempts, 3);
    assert_eq!(s.phase, Phase::Starting);
    assert_eq!(s.version, 1);
}

#[test]
fn simulation_mode_never_starts_a_child() {
    let (mut s, first) = Supervisor::begin(true, 1);
    assert_eq!(first, Command::Sleep(60_000));
    assert_eq!(s.phase, Phase::Idle);
    assert_eq!(s.step(Observation::Alive(7)), Command::Sleep(60_000));
    assert_eq!(s.step(Observation::Crashed), Command::Sleep(60_000));
    assert_eq!(s.attempts, 0);
    assert_eq!(s.version, 1);
}
