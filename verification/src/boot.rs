//! The boot state machine: idempotent start of a backend service with
//! health-polling retries.
//!
//! Booting is a dialogue between this machine and the runtime that performs
//! the work (probes, process launch, sleeps): the machine consumes one
//! [`BootEvent`] at a time and answers with the next [`BootCommand`]. A boot
//! begins with a health probe; a backend already running succeeds at once,
//! with no launch attempt. Otherwise the old process is torn down, a
//! configured model-storage path is checked (failing fast when absent), the
//! service is launched, and health is polled up to [`BOOT_TRIES`] times with
//! a sleep between attempts. Where the budget runs out, the launched
//! process is torn down first and only then does the boot fail, naming the
//! backend: a boot that never becomes healthy leaves no process running.

use vstd::prelude::*;

use crate::errors::Error;

verus! {

/// How many health probes a boot attempts after launching the service.
pub const BOOT_TRIES: u32 = 3;

/// Where a boot stands: which answer the machine is waiting for.
#[derive(Clone, Copy, Debug, PartialEq, Eq, Structural)]
pub enum BootPhase {
    /// No boot in progress.
    Idle,
    /// Waiting for the initial liveness probe.
    AwaitInitialProbe,
    /// Waiting for the teardown of a previous process to finish.
    AwaitShutdown,
    /// Waiting for the check of the configured model-storage path.
    AwaitPathCheck,
    /// Waiting for the service launch to be attempted.
    AwaitLaunch,
    /// Waiting for one post-launch health probe; counts probes done so far.
    AwaitPoll { probes_done: u32 },
    /// Waiting for the inter-attempt sleep; counts probes done so far.
    AwaitSleep { probes_done: u32 },
    /// The retry budget ran out: waiting for the teardown of the launched
    /// process before the failure is reported.
    AwaitFailShutdown,
    /// The backend is running; the boot succeeded.
    Running,
    /// The boot failed.
    Failed,
}

/// What the runtime reports back to the machine.
#[derive(Clone, Copy, Debug, PartialEq, Eq, Structural)]
pub enum BootEvent {
    /// A boot was requested.
    Begin,
    /// A health probe succeeded.
    ProbeOk,
    /// A health probe failed (the probe itself never errors: any failure,
    /// a timeout included, reports not-running).
    ProbeFail,
    /// The previous process was torn down.
    ShutdownDone,
    /// The configured model-storage path exists.
    PathOk,
    /// The configured model-storage path does not exist.
    PathMissing,
    /// The service process was spawned.
    LaunchOk,
    /// The service process could not be spawned.
    LaunchFail,
    /// The inter-attempt sleep elapsed.
    Slept,
}

/// Why a boot failed.
#[derive(Clone, Copy, Debug, PartialEq, Eq, Structural)]
pub enum BootFailure {
    /// The configured model-storage path does not exist; the launch was
    /// never attempted.
    PathMissing,
    /// The service process could not be spawned.
    LaunchError,
    /// The service did not become healthy within the retry budget.
    Timeout,
    /// The runtime answered with an event the current phase cannot take.
    UnexpectedEvent,
}

/// What the machine asks the runtime to do next.
#[derive(Clone, Copy, Debug, PartialEq, Eq, Structural)]
pub enum BootCommand {
    /// Probe the backend's health.
    Probe,
    /// Tear down the previous process, if any.
    Shutdown,
    /// Check that the configured model-storage path exists.
    CheckPath,
    /// Launch the service process.
    Launch,
    /// Sleep for the fixed inter-attempt delay.
    Sleep,
    /// The boot succeeded; stop.
    Succeed,
    /// The boot failed; stop and report.
    Fail(BootFailure),
}

/// The transition table of the boot machine. `has_models_path` says whether
/// a model-storage override is configured; only then is the path checked.
pub open spec fn boot_step_spec(phase: BootPhase, ev: BootEvent, has_models_path: bool) -> (
    BootPhase,
    BootCommand,
) {
    match (phase, ev) {
        (BootPhase::Idle, BootEvent::Begin) => (BootPhase::AwaitInitialProbe, BootCommand::Probe),
        (BootPhase::AwaitInitialProbe, BootEvent::ProbeOk) => (
            BootPhase::Running,
            BootCommand::Succeed,
        ),
        (BootPhase::AwaitInitialProbe, BootEvent::ProbeFail) => (
            BootPhase::AwaitShutdown,
            BootCommand::Shutdown,
        ),
        (BootPhase::AwaitShutdown, BootEvent::ShutdownDone) => if has_models_path {
            (BootPhase::AwaitPathCheck, BootCommand::CheckPath)
        } else {
            (BootPhase::AwaitLaunch, BootCommand::Launch)
        },
        (BootPhase::AwaitPathCheck, BootEvent::PathOk) => (
            BootPhase::AwaitLaunch,
            BootCommand::Launch,
        ),
        (BootPhase::AwaitPathCheck, BootEvent::PathMissing) => (
            BootPhase::Failed,
            BootCommand::Fail(BootFailure::PathMissing),
        ),
        (BootPhase::AwaitLaunch, BootEvent::LaunchOk) => (
            BootPhase::AwaitPoll { probes_done: 0 },
            BootCommand::Probe,
        ),
        (BootPhase::AwaitLaunch, BootEvent::LaunchFail) => (
            BootPhase::Failed,
            BootCommand::Fail(BootFailure::LaunchError),
        ),
        (BootPhase::AwaitPoll { probes_done }, BootEvent::ProbeOk) => (
            BootPhase::Running,
            BootCommand::Succeed,
        ),
        (BootPhase::AwaitPoll { probes_done }, BootEvent::ProbeFail) => if probes_done + 1
            < BOOT_TRIES {
            (BootPhase::AwaitSleep { probes_done: (probes_done + 1) as u32 }, BootCommand::Sleep)
        } else {
            (BootPhase::AwaitFailShutdown, BootCommand::Shutdown)
        },
        (BootPhase::AwaitSleep { probes_done }, BootEvent::Slept) => (
            BootPhase::AwaitPoll { probes_done },
            BootCommand::Probe,
        ),
        (BootPhase::AwaitFailShutdown, BootEvent::ShutdownDone) => (
            BootPhase::Failed,
            BootCommand::Fail(BootFailure::Timeout),
        ),
        _ => (BootPhase::Failed, BootCommand::Fail(BootFailure::UnexpectedEvent)),
    }
}

/// Takes one event and answers with the next phase and command, following
/// [`boot_step_spec`].
pub fn boot_step(phase: BootPhase, ev: BootEvent, has_models_path: bool) -> (r: (
    BootPhase,
    BootCommand,
))
    ensures
        r == boot_step_spec(phase, ev, has_models_path),
{
    match (phase, ev) {
        (BootPhase::Idle, BootEvent::Begin) => (BootPhase::AwaitInitialProbe, BootCommand::Probe),
        (BootPhase::AwaitInitialProbe, BootEvent::ProbeOk) => (
            BootPhase::Running,
            BootCommand::Succeed,
        ),
        (BootPhase::AwaitInitialProbe, BootEvent::ProbeFail) => (
            BootPhase::AwaitShutdown,
            BootCommand::Shutdown,
        ),
        (BootPhase::AwaitShutdown, BootEvent::ShutdownDone) => if has_models_path {
            (BootPhase::AwaitPathCheck, BootCommand::CheckPath)
        } else {
            (BootPhase::AwaitLaunch, BootCommand::Launch)
        },
        (BootPhase::AwaitPathCheck, BootEvent::PathOk) => (
            BootPhase::AwaitLaunch,
            BootCommand::Launch,
        ),
        (BootPhase::AwaitPathCheck, BootEvent::PathMissing) => (
            BootPhase::Failed,
            BootCommand::Fail(BootFailure::PathMissing),
        ),
        (BootPhase::AwaitLaunch, BootEvent::LaunchOk) => (
            BootPhase::AwaitPoll { probes_done: 0 },
            BootCommand::Probe,
        ),
        (BootPhase::AwaitLaunch, BootEvent::LaunchFail) => (
            BootPhase::Failed,
            BootCommand::Fail(BootFailure::LaunchError),
        ),
        (BootPhase::AwaitPoll { probes_done }, BootEvent::ProbeOk) => (
            BootPhase::Running,
            BootCommand::Succeed,
        ),
        (BootPhase::AwaitPoll { probes_done }, BootEvent::ProbeFail) => {
            if probes_done < u32::MAX && probes_done + 1 < BOOT_TRIES {
                (BootPhase::AwaitSleep { probes_done: probes_done + 1 }, BootCommand::Sleep)
            } else {
                (BootPhase::AwaitFailShutdown, BootCommand::Shutdown)
            }
        },
        (BootPhase::AwaitSleep { probes_done }, BootEvent::Slept) => (
            BootPhase::AwaitPoll { probes_done },
            BootCommand::Probe,
        ),
        (BootPhase::AwaitFailShutdown, BootEvent::ShutdownDone) => (
            BootPhase::Failed,
            BootCommand::Fail(BootFailure::Timeout),
        ),
        _ => (BootPhase::Failed, BootCommand::Fail(BootFailure::UnexpectedEvent)),
    }
}

/// The error a failed boot reports: a boot error naming the backend and
/// carrying a human-readable reason — for a launch failure, the reason the
/// runtime observed.
pub fn boot_failure_error(f: BootFailure, backend_name: &str, launch_msg: &str) -> (e: Error)
    ensures
        e matches Error::BackendBoot { reason, backend } && backend@ == backend_name@ && reason@
            == (match f {
            BootFailure::PathMissing => "Models directory does not exist"@,
            BootFailure::LaunchError => launch_msg@,
            BootFailure::Timeout => "Backend did not start within the retry budget"@,
            BootFailure::UnexpectedEvent => "Unexpected boot event"@,
        }),
{
    let reason: String = match f {
        BootFailure::PathMissing => "Models directory does not exist".to_owned(),
        BootFailure::LaunchError => launch_msg.to_owned(),
        BootFailure::Timeout => "Backend did not start within the retry budget".to_owned(),
        BootFailure::UnexpectedEvent => "Unexpected boot event".to_owned(),
    };
    Error::BackendBoot { reason, backend: backend_name.to_owned() }
}

/// What a whole boot dialogue does: the final phase and every command
/// issued, in order.
pub open spec fn run_boot_spec(phase: BootPhase, evs: Seq<BootEvent>, has_models_path: bool) -> (
    BootPhase,
    Seq<BootCommand>,
)
    decreases evs.len(),
{
    if evs.len() == 0 {
        (phase, Seq::empty())
    } else {
        let r = boot_step_spec(phase, evs.first(), has_models_path);
        let rr = run_boot_spec(r.0, evs.drop_first(), has_models_path);
        (rr.0, seq![r.1] + rr.1)
    }
}

/// A boot of an already-running backend succeeds at once: the only
/// commands issued are the initial probe and success — in particular, no
/// launch is ever attempted.
pub proof fn lemma_boot_already_running(has_models_path: bool)
    ensures
        run_boot_spec(BootPhase::Idle, seq![BootEvent::Begin, BootEvent::ProbeOk], has_models_path)
            == (BootPhase::Running, seq![BootCommand::Probe, BootCommand::Succeed]),
        !run_boot_spec(
            BootPhase::Idle,
            seq![BootEvent::Begin, BootEvent::ProbeOk],
            has_models_path,
        ).1.contains(BootCommand::Launch),
{
    reveal_with_fuel(run_boot_spec, 3);
    let evs = seq![BootEvent::Begin, BootEvent::ProbeOk];
    assert(evs.drop_first() =~= seq![BootEvent::ProbeOk]);
    assert(evs.drop_first().drop_first() =~= Seq::<BootEvent>::empty());
    let r = run_boot_spec(BootPhase::Idle, evs, has_models_path);
    assert(r.1 =~= seq![BootCommand::Probe, BootCommand::Succeed]);
    assert forall|i: int| 0 <= i < r.1.len() implies r.1[i] != BootCommand::Launch by {}
}

/// The dialogue of a boot whose launched service never becomes healthy:
/// probe, teardown, launch, [`BOOT_TRIES`] failed probes with sleeps
/// between them, then the teardown of the launched process.
pub open spec fn boot_timeout_events() -> Seq<BootEvent> {
    seq![
        BootEvent::Begin,
        BootEvent::ProbeFail,
        BootEvent::ShutdownDone,
        BootEvent::LaunchOk,
        BootEvent::ProbeFail,
        BootEvent::Slept,
        BootEvent::ProbeFail,
        BootEvent::Slept,
        BootEvent::ProbeFail,
        BootEvent::ShutdownDone,
    ]
}

/// A boot that never becomes healthy within the retry budget fails, after
/// exactly [`BOOT_TRIES`] post-launch probes, with a timeout failure —
/// [`boot_failure_error`] turns that failure into a boot error naming the
/// backend — and the launched process is torn down before the failure is
/// reported, so no process is left running.
pub proof fn lemma_boot_retry_exhausted()
    ensures
        ({
            let r = run_boot_spec(BootPhase::Idle, boot_timeout_events(), false);
            &&& r.0 == BootPhase::Failed
            &&& r.1 == seq![
                BootCommand::Probe,
                BootCommand::Shutdown,
                BootCommand::Launch,
                BootCommand::Probe,
                BootCommand::Sleep,
                BootCommand::Probe,
                BootCommand::Sleep,
                BootCommand::Probe,
                BootCommand::Shutdown,
                BootCommand::Fail(BootFailure::Timeout),
            ]
        }),
{
    let evs = boot_timeout_events();
    let r = run_boot_spec(BootPhase::Idle, evs, false);
    assert(r.0 == BootPhase::Failed && r.1 =~= seq![
        BootCommand::Probe,
        BootCommand::Shutdown,
        BootCommand::Launch,
        BootCommand::Probe,
        BootCommand::Sleep,
        BootCommand::Probe,
        BootCommand::Sleep,
        BootCommand::Probe,
        BootCommand::Shutdown,
        BootCommand::Fail(BootFailure::Timeout),
    ]) by {
        reveal_with_fuel(run_boot_spec, 11);
        assert(evs.drop_first() =~= evs.subrange(1, 10));
        assert(evs.subrange(1, 10).drop_first() =~= evs.subrange(2, 10));
        assert(evs.subrange(2, 10).drop_first() =~= evs.subrange(3, 10));
        assert(evs.subrange(3, 10).drop_first() =~= evs.subrange(4, 10));
        assert(evs.subrange(4, 10).drop_first() =~= evs.subrange(5, 10));
        assert(evs.subrange(5, 10).drop_first() =~= evs.subrange(6, 10));
        assert(evs.subrange(6, 10).drop_first() =~= evs.subrange(7, 10));
        assert(evs.subrange(7, 10).drop_first() =~= evs.subrange(8, 10));
        assert(evs.subrange(8, 10).drop_first() =~= evs.subrange(9, 10));
        assert(evs.subrange(9, 10).drop_first() =~= Seq::<BootEvent>::empty());
    }
}

} // verus!
