//! The life cycle of one run: from the built command line to the exit status
//! or the error that the caller gets.
//!
//! The caller does the outside work (starting the process, starting the two
//! pumps, waiting for the exit) and reports how each went; `advance` decides
//! what comes next.
use vstd::prelude::*;

verus! {

/// The status of a run whose process ended without an exit code, such as one
/// that a signal ended.
pub const NO_CODE: i32 = -1;

/// Why a run gave no status.
#[derive(Debug, PartialEq, Eq)]
pub enum RunError {
    /// The tool could not be found or started.
    SpawnFailure(String),
    /// The system failed while the run waited for the tool to end.
    WaitFailure(String),
}

impl RunError {
    /// The system's own words for the failure.
    pub open spec fn text(&self) -> Seq<char> {
        match self {
            RunError::SpawnFailure(message) => message@,
            RunError::WaitFailure(message) => message@,
        }
    }

    /// The message that the caller is given in place of a status.
    pub fn message(&self) -> (message: String)
        ensures
            message@ == self.text(),
    {
        match self {
            RunError::SpawnFailure(message) => message.clone(),
            RunError::WaitFailure(message) => message.clone(),
        }
    }
}

/// The status that a run resolves to, given the exit code if there was one.
pub open spec fn exit_status(code: Option<i32>) -> i32 {
    match code {
        Some(n) => n,
        None => NO_CODE,
    }
}

/// Maps what the system says of the ended process to the run's status.
pub fn resolve_exit(code: Option<i32>) -> (status: i32)
    ensures
        status == exit_status(code),
{
    match code {
        Some(n) => n,
        None => NO_CODE,
    }
}

/// Where a run stands.
#[derive(Clone, Copy, Debug, PartialEq, Eq, Structural)]
pub enum Phase {
    /// The command line is built; nothing has been started.
    Built,
    /// The process runs, with both channels captured; no pump reads yet.
    Spawned,
    /// The pumps read, and the run waits for the process to end.
    Running,
    /// The process ended with this code.
    Exited(i32),
    /// The process ended without a code.
    ExitedNoCode,
    /// The process could not be started.
    SpawnFailed,
    /// Waiting for the process failed.
    WaitFailed,
}

/// What the caller reports back after doing what it was told.
#[derive(Debug, PartialEq, Eq)]
pub enum Report {
    /// The process was started.
    Launched,
    /// The process could not be started, with the system's message.
    LaunchFailed(String),
    /// Both pumps were started.
    PumpsStarted,
    /// The process ended, with its exit code if it has one.
    Terminated(Option<i32>),
    /// Waiting failed, with the system's message.
    WaitFaulted(String),
}

/// What the caller is to do next.
#[derive(Debug, PartialEq, Eq)]
pub enum Directive {
    /// Start the process, once, with both channels captured.
    Launch,
    /// Start one pump on each channel.
    StartPumps,
    /// Wait until the process ends.
    AwaitExit,
    /// Return this status to the caller.
    Resolve(i32),
    /// Return this error to the caller.
    Reject(RunError),
    /// Nothing: the report does not belong to this phase.
    Ignore,
}

impl Phase {
    /// A run that has ended, well or badly.
    pub open spec fn is_terminal(&self) -> bool {
        match self {
            Phase::Built | Phase::Spawned | Phase::Running => false,
            _ => true,
        }
    }

    /// True when the run has ended.
    pub fn ended(&self) -> (ended: bool)
        ensures
            ended == self.is_terminal(),
    {
        match self {
            Phase::Built | Phase::Spawned | Phase::Running => false,
            _ => true,
        }
    }

    /// True when pumps may have been started in this run: no event can
    /// come from a run of which this is false.
    pub open spec fn may_have_streamed(&self) -> bool {
        match self {
            Phase::Built | Phase::Spawned | Phase::SpawnFailed => false,
            _ => true,
        }
    }
}

/// The phase that follows `phase` on `report`. A report that does not belong
/// to the phase changes nothing.
pub open spec fn next_phase(phase: Phase, report: Report) -> Phase {
    match (phase, report) {
        (Phase::Built, Report::Launched) => Phase::Spawned,
        (Phase::Built, Report::LaunchFailed(_)) => Phase::SpawnFailed,
        (Phase::Spawned, Report::PumpsStarted) => Phase::Running,
        (Phase::Running, Report::Terminated(Some(n))) => Phase::Exited(n),
        (Phase::Running, Report::Terminated(None)) => Phase::ExitedNoCode,
        (Phase::Running, Report::WaitFaulted(_)) => Phase::WaitFailed,
        _ => phase,
    }
}

/// What the caller is told on `report` in `phase`.
pub open spec fn reaction(phase: Phase, report: Report) -> Directive {
    match (phase, report) {
        (Phase::Built, Report::Launched) => Directive::StartPumps,
        (Phase::Built, Report::LaunchFailed(message)) => Directive::Reject(
            RunError::SpawnFailure(message),
        ),
        (Phase::Spawned, Report::PumpsStarted) => Directive::AwaitExit,
        (Phase::Running, Report::Terminated(code)) => Directive::Resolve(exit_status(code)),
        (Phase::Running, Report::WaitFaulted(message)) => Directive::Reject(
            RunError::WaitFailure(message),
        ),
        _ => Directive::Ignore,
    }
}

/// The phase after a series of reports.
pub open spec fn phase_after(phase: Phase, reports: Seq<Report>) -> Phase
    decreases reports.len(),
{
    if reports.len() == 0 {
        phase
    } else {
        next_phase(phase_after(phase, reports.drop_last()), reports.last())
    }
}

/// Opens a run: the first thing to do is to start the process.
pub fn begin() -> (step: (Phase, Directive))
    ensures
        step.0 == Phase::Built,
        step.1 == Directive::Launch,
{
    (Phase::Built, Directive::Launch)
}

/// Takes the run one step on: the next phase, and what the caller is to do.
pub fn advance(phase: Phase, report: Report) -> (step: (Phase, Directive))
    ensures
        step.0 == next_phase(phase, report),
        step.1 == reaction(phase, report),
{
    match phase {
        Phase::Built => match report {
            Report::Launched => (Phase::Spawned, Directive::StartPumps),
            Report::LaunchFailed(message) => (
                Phase::SpawnFailed,
                Directive::Reject(RunError::SpawnFailure(message)),
            ),
            _ => (phase, Directive::Ignore),
        },
        Phase::Spawned => match report {
            Report::PumpsStarted => (Phase::Running, Directive::AwaitExit),
            _ => (phase, Directive::Ignore),
        },
        Phase::Running => match report {
            Report::Terminated(code) => {
                let next = match code {
                    Some(n) => Phase::Exited(n),
                    None => Phase::ExitedNoCode,
                };
                (next, Directive::Resolve(resolve_exit(code)))
            },
            Report::WaitFaulted(message) => (
                Phase::WaitFailed,
                Directive::Reject(RunError::WaitFailure(message)),
            ),
            _ => (phase, Directive::Ignore),
        },
        _ => (phase, Directive::Ignore),
    }
}

/// A run that has ended stays as it is, whatever is reported, and asks for
/// nothing more.
pub proof fn lemma_terminal_is_final(phase: Phase, reports: Seq<Report>)
    requires
        phase.is_terminal(),
    ensures
        phase_after(phase, reports) == phase,
        forall|report: Report| #[trigger] reaction(phase, report) == Directive::Ignore,
    decreases reports.len(),
{
    if reports.len() > 0 {
        lemma_terminal_is_final(phase, reports.drop_last());
    }
}

/// A launch that failed rejects the run with a spawn failure that carries the
/// system's message, and no later report brings the run to a phase in which
/// pumps read: such a run emits nothing.
pub proof fn lemma_failed_launch_streams_nothing(message: String, later: Seq<Report>)
    ensures
        reaction(Phase::Built, Report::LaunchFailed(message)) == Directive::Reject(
            RunError::SpawnFailure(message),
        ),
        phase_after(next_phase(Phase::Built, Report::LaunchFailed(message)), later)
            == Phase::SpawnFailed,
        !Phase::SpawnFailed.may_have_streamed(),
{
    lemma_terminal_is_final(Phase::SpawnFailed, later);
}

/// Pumps are started on one occasion only: when the launch of a built run
/// is reported to have succeeded.
pub proof fn lemma_pumps_follow_launch(phase: Phase, report: Report)
    ensures
        reaction(phase, report) == Directive::StartPumps <==> phase == Phase::Built && report
            == Report::Launched,
        next_phase(phase, report).may_have_streamed() && !phase.may_have_streamed() ==> phase
            == Phase::Spawned && report == Report::PumpsStarted,
{
}

/// A run resolves on one occasion only: when the process it waits for is
/// reported to have ended. Its status is then the exit code, or `NO_CODE`
/// where there is none.
pub proof fn lemma_resolution(phase: Phase, report: Report, status: i32)
    ensures
        reaction(phase, report) == Directive::Resolve(status) <==> phase == Phase::Running && (
        report == Report::Terminated(Some(status)) || (status == NO_CODE && report
            == Report::Terminated(None))),
{
}

} // verus!
