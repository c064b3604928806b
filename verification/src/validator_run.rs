//! Watching a validator program from launch to verdict.
//!
//! A run is a sequence of actions. The caller carries out the pending one,
//! reports how it went, and finds the next one pending, until the run is over.

use crate::validator_command::{
    attestation_arguments, attestation_variables, default_features, opt_text, responder_arguments,
    start_spdm_attestation_with_port, start_spdm_responder_validator, start_spdm_tee_io_validator,
    tee_io_arguments, LaunchCommand,
};
use vstd::prelude::*;

verus! {

/// The program that is run.
#[derive(Clone, Copy, Debug, PartialEq, Eq, Structural)]
pub enum ValidatorTool {
    /// The TEE-IO validator. Its failure ends the whole process.
    TeeIo,
    /// The attestation requester. Its verdict goes to whoever asked for it.
    Attestation,
    /// The responder validator. Its log is checked too, and a failure ends the
    /// whole process.
    Responder,
}

/// What is to be done next in a run.
#[derive(Clone, Copy, Debug, PartialEq, Eq, Structural)]
pub enum RunAction {
    /// See whether the SPDM listener is there.
    AskListener,
    /// Let some time pass before the next look at the listener.
    SleepForListener,
    /// Launch the program.
    Launch,
    /// See whether the emulator is still running.
    AskRunning,
    /// See how the program is doing.
    PollChild,
    /// Let some time pass before the next look at the program.
    SleepForChild,
    /// Judge the program's log.
    CheckLog,
    /// Kill the program, if it still runs; then the run is over, passed or not.
    KillChild(bool),
    /// End the whole process as failed.
    ExitProcess,
    /// The run is over, passed or not.
    Done(bool),
}

/// How a launched program is doing.
#[derive(Clone, Copy, Debug, PartialEq, Eq, Structural)]
pub enum ChildStatus {
    StillRunning,
    /// It has ended, successfully or not.
    Exited(bool),
    /// That could not be found out.
    Unknown,
}

/// How the pending action went.
#[derive(Clone, Copy, Debug, PartialEq, Eq, Structural)]
pub enum RunEvent {
    /// Whether the SPDM listener is there.
    Listening(bool),
    /// Whether the program was launched.
    Launched(bool),
    /// Whether the emulator is still running.
    EmulatorRunning(bool),
    /// How the program is doing.
    Child(ChildStatus),
    /// Whether the log stands for a passed run.
    LogPassed(bool),
    /// The action is carried out.
    Completed,
}

/// What follows a program that ended, or could not be watched any more.
pub open spec fn after_exit(tool: ValidatorTool, success: bool) -> RunAction {
    match tool {
        ValidatorTool::TeeIo => if success {
            RunAction::KillChild(true)
        } else {
            RunAction::ExitProcess
        },
        ValidatorTool::Attestation => RunAction::Done(success),
        ValidatorTool::Responder => if success {
            RunAction::CheckLog
        } else {
            RunAction::ExitProcess
        },
    }
}

/// What follows `pending` when it went as `event` says. An event that does not
/// belong to the pending action changes nothing.
pub open spec fn next(tool: ValidatorTool, pending: RunAction, event: RunEvent) -> RunAction {
    match (pending, event) {
        (RunAction::AskListener, RunEvent::Listening(listening)) => if listening {
            RunAction::Launch
        } else {
            RunAction::SleepForListener
        },
        (RunAction::SleepForListener, RunEvent::Completed) => RunAction::AskListener,
        (RunAction::Launch, RunEvent::Launched(launched)) => if launched {
            RunAction::AskRunning
        } else if tool == ValidatorTool::TeeIo {
            RunAction::ExitProcess
        } else {
            RunAction::Done(false)
        },
        (RunAction::AskRunning, RunEvent::EmulatorRunning(running)) => if running {
            RunAction::PollChild
        } else {
            RunAction::KillChild(false)
        },
        (RunAction::PollChild, RunEvent::Child(status)) => match status {
            ChildStatus::StillRunning => RunAction::SleepForChild,
            ChildStatus::Exited(success) => after_exit(tool, success),
            ChildStatus::Unknown => after_exit(tool, false),
        },
        (RunAction::SleepForChild, RunEvent::Completed) => RunAction::AskRunning,
        (RunAction::CheckLog, RunEvent::LogPassed(passed)) => if passed {
            RunAction::KillChild(true)
        } else {
            RunAction::ExitProcess
        },
        (RunAction::KillChild(passed), RunEvent::Completed) => RunAction::Done(passed),
        _ => pending,
    }
}

/// One run of a validator program.
pub struct ValidatorRun {
    tool: ValidatorTool,
    command: LaunchCommand,
    pending: RunAction,
}

impl ValidatorRun {
    /// The program that is run.
    pub closed spec fn program(&self) -> ValidatorTool {
        self.tool
    }

    /// What it is launched with.
    pub closed spec fn launched_with(&self) -> LaunchCommand {
        self.command
    }

    /// What is to be done next.
    pub closed spec fn upcoming(&self) -> RunAction {
        self.pending
    }

    /// What the program is launched with.
    pub fn command(&self) -> (r: &LaunchCommand)
        ensures
            *r == self.launched_with(),
    {
        &self.command
    }

    /// What is to be done next.
    pub fn pending(&self) -> (r: RunAction)
        ensures
            r == self.upcoming(),
    {
        self.pending
    }

    /// Takes note of how the pending action went.
    pub fn report(&mut self, event: RunEvent)
        ensures
            final(self).program() == old(self).program(),
            final(self).launched_with() == old(self).launched_with(),
            final(self).upcoming() == next(old(self).program(), old(self).upcoming(), event),
    {
        let tool = self.tool;
        let following = match (self.pending, event) {
            (RunAction::AskListener, RunEvent::Listening(listening)) => if listening {
                RunAction::Launch
            } else {
                RunAction::SleepForListener
            },
            (RunAction::SleepForListener, RunEvent::Completed) => RunAction::AskListener,
            (RunAction::Launch, RunEvent::Launched(launched)) => if launched {
                RunAction::AskRunning
            } else {
                match tool {
                    ValidatorTool::TeeIo => RunAction::ExitProcess,
                    _ => RunAction::Done(false),
                }
            },
            (RunAction::AskRunning, RunEvent::EmulatorRunning(running)) => if running {
                RunAction::PollChild
            } else {
                RunAction::KillChild(false)
            },
            (RunAction::PollChild, RunEvent::Child(status)) => match status {
                ChildStatus::StillRunning => RunAction::SleepForChild,
                ChildStatus::Exited(success) => exited(tool, success),
                ChildStatus::Unknown => exited(tool, false),
            },
            (RunAction::SleepForChild, RunEvent::Completed) => RunAction::AskRunning,
            (RunAction::CheckLog, RunEvent::LogPassed(passed)) => if passed {
                RunAction::KillChild(true)
            } else {
                RunAction::ExitProcess
            },
            (RunAction::KillChild(passed), RunEvent::Completed) => RunAction::Done(passed),
            _ => self.pending,
        };
        self.pending = following;
    }
}

/// What follows a program that ended, or could not be watched any more.
fn exited(tool: ValidatorTool, success: bool) -> (r: RunAction)
    ensures
        r == after_exit(tool, success),
{
    match tool {
        ValidatorTool::TeeIo => if success {
            RunAction::KillChild(true)
        } else {
            RunAction::ExitProcess
        },
        ValidatorTool::Attestation => RunAction::Done(success),
        ValidatorTool::Responder => if success {
            RunAction::CheckLog
        } else {
            RunAction::ExitProcess
        },
    }
}

/// Begins a run of the TEE-IO validator with its usual features only.
pub fn execute_spdm_tee_io_validator(transport: &str) -> (r: ValidatorRun)
    ensures
        r.program() == ValidatorTool::TeeIo,
        r.upcoming() == RunAction::AskListener,
        r.launched_with().binary@ == "spdm-requester-emu"@,
        r.launched_with().log_file@ == "tdisp_ide_validator_output.txt"@,
        r.launched_with().arguments() == tee_io_arguments(default_features(), true),
        r.launched_with().variables() == Seq::<(Seq<char>, Seq<char>)>::empty(),
{
    ValidatorRun {
        tool: ValidatorTool::TeeIo,
        command: start_spdm_tee_io_validator(transport, None, true),
        pending: RunAction::AskListener,
    }
}

/// Begins a run of the attestation requester on its usual port.
pub fn execute_spdm_attestation(transport: &str) -> (r: ValidatorRun)
    ensures
        r.program() == ValidatorTool::Attestation,
        r.upcoming() == RunAction::AskListener,
        r.launched_with().binary@ == "spdm_requester_emu"@,
        r.launched_with().log_file@ == "spdm_requester_emu_output.txt"@,
        r.launched_with().arguments() == attestation_arguments(transport@, None),
        r.launched_with().variables() == attestation_variables(None),
{
    execute_spdm_attestation_with_port(transport, None, None)
}

/// Begins a run of the attestation requester.
pub fn execute_spdm_attestation_with_port(
    transport: &str,
    port: Option<u16>,
    nonce: Option<&str>,
) -> (r: ValidatorRun)
    ensures
        r.program() == ValidatorTool::Attestation,
        r.upcoming() == RunAction::AskListener,
        r.launched_with().binary@ == "spdm_requester_emu"@,
        r.launched_with().log_file@ == "spdm_requester_emu_output.txt"@,
        r.launched_with().arguments() == attestation_arguments(transport@, port),
        r.launched_with().variables() == attestation_variables(opt_text(nonce)),
{
    ValidatorRun {
        tool: ValidatorTool::Attestation,
        command: start_spdm_attestation_with_port(transport, port, nonce),
        pending: RunAction::AskListener,
    }
}

/// Begins a run of the responder validator, restricted to `test_groups` where
/// that names any.
pub fn execute_spdm_responder_validator(transport: &str, test_groups: Option<&str>) -> (r:
    ValidatorRun)
    ensures
        r.program() == ValidatorTool::Responder,
        r.upcoming() == RunAction::AskListener,
        r.launched_with().binary@ == "spdm_device_validator_sample"@,
        r.launched_with().log_file@ == "spdm_device_validator_output.txt"@,
        r.launched_with().arguments() == responder_arguments(transport@, opt_text(test_groups)),
        r.launched_with().variables() == Seq::<(Seq<char>, Seq<char>)>::empty(),
{
    ValidatorRun {
        tool: ValidatorTool::Responder,
        command: start_spdm_responder_validator(transport, test_groups),
        pending: RunAction::AskListener,
    }
}

/// Whether someone who waits for the responder validator can stop waiting:
/// the verdict if so, `None` if the emulator still runs without one.
pub fn wait_for_spdm_responder_validator(running: bool, done: bool) -> (r: Option<bool>)
    ensures
        r == (if running && !done {
            None
        } else {
            Some(done)
        }),
{
    if running && !done {
        None
    } else {
        Some(done)
    }
}

/// Whether the run is over with this action.
pub open spec fn is_final(action: RunAction) -> bool {
    action is Done || action is ExitProcess
}

/// Whether the action leads to a passed run.
pub open spec fn is_passing(action: RunAction) -> bool {
    action == RunAction::Done(true) || action == RunAction::KillChild(true)
}

/// A run that is over stays as it is.
pub proof fn law_final_actions_stay(tool: ValidatorTool, action: RunAction, event: RunEvent)
    requires
        is_final(action),
    ensures
        next(tool, action, event) == action,
{
}

/// Where a run stands after `events`.
pub open spec fn after_events(tool: ValidatorTool, events: Seq<RunEvent>) -> RunAction
    decreases events.len(),
{
    if events.len() == 0 {
        RunAction::AskListener
    } else {
        next(tool, after_events(tool, events.drop_last()), events.last())
    }
}

/// Nothing is launched before the listener is there, and after a launch the
/// run never comes back to launching.
pub proof fn law_launch_needs_listener(tool: ValidatorTool, pending: RunAction, event: RunEvent)
    ensures
        next(tool, pending, event) == RunAction::Launch && pending != RunAction::Launch ==> pending
            == RunAction::AskListener && event == RunEvent::Listening(true),
        next(tool, pending, event) == RunAction::AskListener || next(tool, pending, event)
            == RunAction::SleepForListener ==> pending == RunAction::AskListener || pending
            == RunAction::SleepForListener,
{
}

/// A run passes only on a program that ended successfully and, for the
/// responder validator, on a log that then proved to stand for a passed run.
pub proof fn law_passing_needs_success(tool: ValidatorTool, events: Seq<RunEvent>)
    requires
        is_passing(after_events(tool, events)),
    ensures
        exists|i: int|
            0 <= i < events.len() && #[trigger] events[i] == RunEvent::Child(
                ChildStatus::Exited(true),
            ) && (tool == ValidatorTool::Responder ==> exists|j: int|
                i < j < events.len() && #[trigger] events[j] == RunEvent::LogPassed(true)),
    decreases events.len(),
{
    let front = events.drop_last();
    lemma_log_check_follows_success(tool, front);
    if is_passing(after_events(tool, front)) {
        law_passing_needs_success(tool, front);
    }
}

/// A run of the attestation requester never ends the whole process.
pub proof fn law_attestation_keeps_the_process(events: Seq<RunEvent>)
    ensures
        after_events(ValidatorTool::Attestation, events) != RunAction::ExitProcess,
    decreases events.len(),
{
    if events.len() > 0 {
        law_attestation_keeps_the_process(events.drop_last());
        lemma_log_check_follows_success(ValidatorTool::Attestation, events.drop_last());
    }
}

/// Only the responder validator's log is looked at, and only after the program
/// ended successfully.
proof fn lemma_log_check_follows_success(tool: ValidatorTool, events: Seq<RunEvent>)
    ensures
        after_events(tool, events) == RunAction::CheckLog ==> tool == ValidatorTool::Responder && (
        exists|i: int|
            0 <= i < events.len() && #[trigger] events[i] == RunEvent::Child(
                ChildStatus::Exited(true),
            )),
    decreases events.len(),
{
    if events.len() > 0 && after_events(tool, events) == RunAction::CheckLog {
        lemma_log_check_follows_success(tool, events.drop_last());
    }
}

/// How a run goes on: it waits for the listener, launches, and looks at the
/// program in turn with looking whether the emulator still runs. Nothing else
/// changes it.
pub proof fn law_run_goes_on(tool: ValidatorTool, pending: RunAction, event: RunEvent)
    ensures
        ({
            let after = next(tool, pending, event);
            let goes = |p: RunAction, e: RunEvent| pending == p && event == e;
            &&& goes(RunAction::AskListener, RunEvent::Listening(true)) ==> after
                == RunAction::Launch
            &&& goes(RunAction::AskListener, RunEvent::Listening(false)) ==> after
                == RunAction::SleepForListener
            &&& goes(RunAction::SleepForListener, RunEvent::Completed) ==> after
                == RunAction::AskListener
            &&& goes(RunAction::Launch, RunEvent::Launched(true)) ==> after == RunAction::AskRunning
            &&& goes(RunAction::AskRunning, RunEvent::EmulatorRunning(true)) ==> after
                == RunAction::PollChild
            &&& goes(RunAction::AskRunning, RunEvent::EmulatorRunning(false)) ==> after
                == RunAction::KillChild(false)
            &&& goes(RunAction::PollChild, RunEvent::Child(ChildStatus::StillRunning)) ==> after
                == RunAction::SleepForChild
            &&& goes(RunAction::SleepForChild, RunEvent::Completed) ==> after
                == RunAction::AskRunning
            &&& goes(RunAction::CheckLog, RunEvent::LogPassed(true)) ==> after
                == RunAction::KillChild(true)
            &&& goes(RunAction::CheckLog, RunEvent::LogPassed(false)) ==> after
                == RunAction::ExitProcess
            &&& goes(RunAction::KillChild(true), RunEvent::Completed) ==> after
                == RunAction::Done(true)
            &&& goes(RunAction::KillChild(false), RunEvent::Completed) ==> after
                == RunAction::Done(false)
            &&& after != pending ==> match event {
                RunEvent::Listening(_) => pending is AskListener,
                RunEvent::Launched(_) => pending is Launch,
                RunEvent::EmulatorRunning(_) => pending is AskRunning,
                RunEvent::Child(_) => pending is PollChild,
                RunEvent::LogPassed(_) => pending is CheckLog,
                RunEvent::Completed => pending is SleepForListener || pending is SleepForChild
                    || pending is KillChild,
            }
        }),
{
}

/// How the programs differ. A program that cannot be launched ends the process
/// for the TEE-IO validator and the run for the others. One that ended
/// successfully passes the run, once killed, for the TEE-IO validator, at once
/// for the attestation requester, and by its log for the responder validator.
/// One that failed or got lost fails the run of the attestation requester and
/// ends the process for the others.
pub proof fn law_tools_differ(status: ChildStatus)
    ensures
        ({
            let tee_io = |p: RunAction, e: RunEvent| next(ValidatorTool::TeeIo, p, e);
            let attestation = |p: RunAction, e: RunEvent| next(ValidatorTool::Attestation, p, e);
            let responder = |p: RunAction, e: RunEvent| next(ValidatorTool::Responder, p, e);
            let not_launched = RunEvent::Launched(false);
            let ended_well = RunEvent::Child(ChildStatus::Exited(true));
            let ended = RunEvent::Child(status);
            let bad = status == ChildStatus::Exited(false) || status == ChildStatus::Unknown;
            &&& tee_io(RunAction::Launch, not_launched) == RunAction::ExitProcess
            &&& attestation(RunAction::Launch, not_launched) == RunAction::Done(false)
            &&& responder(RunAction::Launch, not_launched) == RunAction::Done(false)
            &&& tee_io(RunAction::PollChild, ended_well) == RunAction::KillChild(true)
            &&& attestation(RunAction::PollChild, ended_well) == RunAction::Done(true)
            &&& responder(RunAction::PollChild, ended_well) == RunAction::CheckLog
            &&& bad ==> tee_io(RunAction::PollChild, ended) == RunAction::ExitProcess
            &&& bad ==> attestation(RunAction::PollChild, ended) == RunAction::Done(false)
            &&& bad ==> responder(RunAction::PollChild, ended) == RunAction::ExitProcess
        }),
{
}

} // verus!
