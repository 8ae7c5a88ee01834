//! Tests of the boot state machine: the idempotent fast path, the fail-fast
//! path check, launch failures, and the exhausted retry budget.

use whisper2_lib::{boot_step, BootCommand, BootEvent, BootFailure, BootPhase, Error, BOOT_TRIES};
use whisper2_lib::boot::boot_failure_error;

#[test]
fn already_running_backend_boots_without_launch() {
    let (phase, cmd) = boot_step(BootPhase::Idle, BootEvent::Begin, false);
    assert_eq!(phase, BootPhase::AwaitInitialProbe);
    assert_eq!(cmd, BootCommand::Probe);
    let (phase, cmd) = boot_step(phase, BootEvent::ProbeOk, false);
    assert_eq!(phase, BootPhase::Running);
    assert_eq!(cmd, BootCommand::Succeed);
}

#[test]
fn missing_models_path_fails_before_launch() {
    let (phase, _) = boot_step(BootPhase::Idle, BootEvent::Begin, true);
    let (phase, cmd) = boot_step(phase, BootEvent::ProbeFail, true);
    assert_eq!(cmd, BootCommand::Shutdown);
    let (phase, cmd) = boot_step(phase, BootEvent::ShutdownDone, true);
    assert_eq!(cmd, BootCommand::CheckPath);
    let (phase, cmd) = boot_step(phase, BootEvent::PathMissing, true);
    assert_eq!(phase, BootPhase::Failed);
    assert_eq!(cmd, BootCommand::Fail(BootFailure::PathMissing));
}

#[test]
fn launch_failure_fails_the_boot() {
    let (phase, _) = boot_step(BootPhase::Idle, BootEvent::Begin, false);
    let (phase, _) = boot_step(phase, BootEvent::ProbeFail, false);
    let (phase, cmd) = boot_step(phase, BootEvent::ShutdownDone, false);
    assert_eq!(cmd, BootCommand::Launch);
    let (phase, cmd) = boot_step(phase, BootEvent::LaunchFail, false);
    assert_eq!(phase, BootPhase::Failed);
    assert_eq!(cmd, BootCommand::Fail(BootFailure::LaunchError));
}

#[test]
fn retry_budget_exhaustion_tears_down_then_fails_with_timeout() {
    let (phase, _) = boot_step(BootPhase::Idle, BootEvent::Begin, false);
    let (phase, _) = boot_step(phase, BootEvent::ProbeFail, false);
    let (phase, _) = boot_step(phase, BootEvent::ShutdownDone, false);
    let (mut phase, cmd) = boot_step(phase, BootEvent::LaunchOk, false);
    assert_eq!(cmd, BootCommand::Probe);

    let mut probes: u32 = 1;
    loop {
        let (next, cmd) = boot_step(phase, BootEvent::ProbeFail, false);
        if cmd == BootCommand::Shutdown {
            // Budget exhausted: the launched process is torn down before
            // the failure is reported, so nothing is left running.
            let (next, cmd) = boot_step(next, BootEvent::ShutdownDone, false);
            assert_eq!(next, BootPhase::Failed);
            assert_eq!(cmd, BootCommand::Fail(BootFailure::Timeout));
            break;
        }
        assert_eq!(cmd, BootCommand::Sleep);
        let (next, cmd) = boot_step(next, BootEvent::Slept, false);
        assert_eq!(cmd, BootCommand::Probe);
        probes += 1;
        phase = next;
        assert!(probes <= BOOT_TRIES, "machine must give up within the retry budget");
    }
    assert_eq!(probes, BOOT_TRIES);
}

#[test]
fn recovery_during_polling_succeeds() {
    let (phase, _) = boot_step(BootPhase::Idle, BootEvent::Begin, false);
    let (phase, _) = boot_step(phase, BootEvent::ProbeFail, false);
    let (phase, _) = boot_step(phase, BootEvent::ShutdownDone, false);
    let (phase, _) = boot_step(phase, BootEvent::LaunchOk, false);
    let (phase, cmd) = boot_step(phase, BootEvent::ProbeFail, false);
    assert_eq!(cmd, BootCommand::Sleep);
    let (phase, _) = boot_step(phase, BootEvent::Slept, false);
    let (phase, cmd) = boot_step(phase, BootEvent::ProbeOk, false);
    assert_eq!(phase, BootPhase::Running);
    assert_eq!(cmd, BootCommand::Succeed);
}

#[test]
fn boot_errors_name_the_backend() {
    match boot_failure_error(BootFailure::Timeout, "Ollama", "") {
        Error::BackendBoot { reason, backend } => {
            assert_eq!(backend, "Ollama");
            assert_eq!(reason, "Backend did not start within the retry budget");
        },
        _ => panic!("expected a boot error"),
    }
    match boot_failure_error(BootFailure::PathMissing, "Ollama", "") {
        Error::BackendBoot { reason, backend } => {
            assert_eq!(backend, "Ollama");
            assert_eq!(reason, "Models directory does not exist");
        },
        _ => panic!("expected a boot error"),
    }
    match boot_failure_error(BootFailure::LaunchError, "Ollama", "no such executable") {
        Error::BackendBoot { reason, backend } => {
            assert_eq!(backend, "Ollama");
            assert_eq!(reason, "no such executable");
        },
        _ => panic!("expected a boot error"),
    }
}
