//! The supervisor of the inference engine, as a state machine.
//!
//! The caller owns the child process. It reports what it observed as an
//! [`Observation`] and carries out the [`Command`] it gets back. A clean
//! exit ends supervision; a crash is answered by a restart after a pause;
//! a changed configuration version is answered by killing the child and
//! starting a new one at once.
use crate::device::next_version;
use vstd::prelude::*;

verus! {

/// Pause before a restart after a crash or a failed start, in milliseconds.
pub const BACKOFF_MS: u64 = 5_000;

/// Distance between two looks at a running child, in milliseconds.
pub const POLL_MS: u64 = 1_000;

/// Distance between two looks at nothing, in simulation mode, in
/// milliseconds.
pub const IDLE_MS: u64 = 60_000;

/// Where supervision stands.
#[derive(Clone, Copy, Debug, PartialEq, Eq, Structural)]
pub enum Phase {
    /// Simulation mode: no child is ever started.
    Idle,
    /// A start was ordered and its result is awaited.
    Starting,
    /// A child runs.
    Running,
    /// The child ended cleanly; supervision is over.
    Stopped,
}

/// What the caller observed.
#[derive(Clone, Copy, Debug, PartialEq, Eq, Structural)]
pub enum Observation {
    /// The start that was ordered succeeded.
    Started,
    /// The start that was ordered failed.
    StartFailed,
    /// The child still runs, and the configuration stands at this version.
    Alive(i64),
    /// The child ended with success.
    ExitedClean,
    /// The child ended with a failure.
    Crashed,
    /// The state of the child could not be read.
    Unknown,
}

/// What the caller does next.
#[derive(Clone, Copy, Debug, PartialEq, Eq, Structural)]
pub enum Command {
    /// Start a child now, then report `Started` or `StartFailed`.
    Spawn,
    /// Wait this many milliseconds, start a child, then report.
    SpawnAfter(u64),
    /// Kill the child, reap it, start a new one now, then report.
    KillAndSpawn,
    /// Wait this many milliseconds, look at the child, then report.
    PollAfter(u64),
    /// Wait this many milliseconds and do nothing else.
    Sleep(u64),
    /// Supervision is over.
    Halt,
}

impl Command {
    /// Whether the command starts a child.
    pub open spec fn spawns(self) -> bool {
        self == Command::Spawn || self == Command::KillAndSpawn || self matches Command::SpawnAfter(_)
    }
}

/// State of the supervisor.
#[derive(Clone, Copy, Debug, PartialEq, Eq, Structural)]
pub struct Supervisor {
    pub phase: Phase,
    pub attempts: u64,
    pub version: i64,
}

/// The state and the command that follow an observation.
pub open spec fn next(s: Supervisor, o: Observation) -> (Supervisor, Command) {
    match s.phase {
        Phase::Idle => (s, Command::Sleep(IDLE_MS)),
        Phase::Stopped => (s, Command::Halt),
        Phase::Starting => match o {
            Observation::Started => (
                Supervisor { phase: Phase::Running, ..s },
                Command::PollAfter(POLL_MS),
            ),
            Observation::StartFailed => (
                Supervisor { attempts: (s.attempts + 1) as u64, ..s },
                Command::SpawnAfter(BACKOFF_MS),
            ),
            _ => (s, Command::PollAfter(POLL_MS)),
        },
        Phase::Running => match o {
            Observation::ExitedClean => (Supervisor { phase: Phase::Stopped, ..s }, Command::Halt),
            Observation::Crashed | Observation::Unknown => (
                Supervisor { phase: Phase::Starting, attempts: (s.attempts + 1) as u64, ..s },
                Command::SpawnAfter(BACKOFF_MS),
            ),
            Observation::Alive(v) => if v != s.version {
                (
                    Supervisor {
                        phase: Phase::Starting,
                        attempts: (s.attempts + 1) as u64,
                        version: v,
                    },
                    Command::KillAndSpawn,
                )
            } else {
                (s, Command::PollAfter(POLL_MS))
            },
            _ => (s, Command::PollAfter(POLL_MS)),
        },
    }
}

impl Supervisor {
    /// Begins supervision at configuration version `version`. In simulation
    /// mode no child is started; otherwise the first start is ordered and
    /// counted as attempt one.
    pub fn begin(simulation: bool, version: i64) -> (r: (Self, Command))
        ensures
            r.0.version == version,
            simulation ==> r.0.phase == Phase::Idle && r.0.attempts == 0 && r.1 == Command::Sleep(
                IDLE_MS,
            ),
            !simulation ==> r.0.phase == Phase::Starting && r.0.attempts == 1 && r.1
                == Command::Spawn,
    {
        if simulation {
            (Supervisor { phase: Phase::Idle, attempts: 0, version }, Command::Sleep(IDLE_MS))
        } else {
            (Supervisor { phase: Phase::Starting, attempts: 1, version }, Command::Spawn)
        }
    }

    /// Takes an observation and says what to do next.
    pub fn step(&mut self, observed: Observation) -> (r: Command)
        requires
            old(self).attempts < u64::MAX,
        ensures
            (*final(self), r) == next(*old(self), observed),
    {
        match self.phase {
            Phase::Idle => Command::Sleep(IDLE_MS),
            Phase::Stopped => Command::Halt,
            Phase::Starting => match observed {
                Observation::Started => {
                    self.phase = Phase::Running;
                    Command::PollAfter(POLL_MS)
                },
                Observation::StartFailed => {
                    self.attempts = self.attempts + 1;
                    Command::SpawnAfter(BACKOFF_MS)
                },
                _ => Command::PollAfter(POLL_MS),
            },
            Phase::Running => match observed {
                Observation::ExitedClean => {
                    self.phase = Phase::Stopped;
                    Command::Halt
                },
                Observation::Crashed | Observation::Unknown => {
                    self.phase = Phase::Starting;
                    self.attempts = self.attempts + 1;
                    Command::SpawnAfter(BACKOFF_MS)
                },
                Observation::Alive(v) => {
                    if v != self.version {
                        self.phase = Phase::Starting;
                        self.attempts = self.attempts + 1;
                        self.version = v;
                        Command::KillAndSpawn
                    } else {
                        Command::PollAfter(POLL_MS)
                    }
                },
                _ => Command::PollAfter(POLL_MS),
            },
        }
    }
}

/// The attempt counter never goes down, and it goes up by one exactly when
/// a start is ordered.
pub proof fn law_attempts_count_starts(s: Supervisor, o: Observation)
    requires
        s.attempts < u64::MAX,
    ensures
        next(s, o).0.attempts >= s.attempts,
        next(s, o).1.spawns() <==> next(s, o).0.attempts == s.attempts + 1,
{
}

/// A running child whose configuration moved to another version is killed
/// and replaced at once, and the new version is the one remembered.
pub proof fn law_version_change_restarts(s: Supervisor, v: i64)
    requires
        s.phase == Phase::Running,
        s.attempts < u64::MAX,
        v != s.version,
    ensures
        next(s, Observation::Alive(v)).1 == Command::KillAndSpawn,
        next(s, Observation::Alive(v)).0.version == v,
        next(s, Observation::Alive(v)).0.attempts == s.attempts + 1,
        next(s, Observation::Alive(v)).0.phase == Phase::Starting,
{
}

/// An edit of the configuration restarts a running engine. Whatever the
/// clock says at the edit, the version that it leaves differs from the one
/// that the supervisor remembers, so the next look at the child kills it,
/// starts a new one, counts the start and remembers the new version.
pub proof fn law_edit_restarts_engine(s: Supervisor, now: i64)
    requires
        s.phase == Phase::Running,
        s.attempts < u64::MAX,
        s.version < i64::MAX,
    ensures
        s.version < next_version(s.version, now) <= i64::MAX,
        next(s, Observation::Alive(next_version(s.version, now) as i64)) == (
            Supervisor {
                phase: Phase::Starting,
                attempts: (s.attempts + 1) as u64,
                version: next_version(s.version, now) as i64,
            },
            Command::KillAndSpawn,
        ),
{
}

/// A clean exit ends supervision for good: no observation starts a child
/// again.
pub proof fn law_clean_exit_is_final(s: Supervisor, o: Observation)
    requires
        s.phase == Phase::Stopped,
    ensures
        next(s, o) == (s, Command::Halt),
{
}

} // verus!
