//! The SPDM responder tasks, one per transport.
//!
//! A task gets its own pool, builds the SPDM stack on it, signals that it is
//! ready and then serves requests until the run loop ends. The DOE task ends at
//! once where there is no DOE device.

use crate::scratch::{DOE_SPDM_SCRATCH_SIZE, MAX_SPDM_MSG_SIZE, MCTP_SPDM_SCRATCH_SIZE};
use vstd::prelude::*;

verus! {

/// PCI-SIG vendor that the TDISP and IDE validator talks to.
pub const TEST_PCI_SIG_VENDOR_ID: u16 = 0x0001;

/// The transport that a task serves.
#[derive(Clone, Copy, Debug, PartialEq, Eq, Structural)]
pub enum ResponderTransport {
    Mctp,
    Doe,
}

/// Who handles vendor-defined requests.
#[derive(Clone, Copy, Debug, PartialEq, Eq, Structural)]
pub enum VdmBackend {
    /// Caliptra's own commands.
    Caliptra,
    /// IDE key management and TDISP of the given PCI-SIG vendor.
    PciSig(u16),
    /// Nobody.
    Disabled,
}

/// What is to be done next in a task.
#[derive(Clone, Copy, Debug, PartialEq, Eq, Structural)]
pub enum TaskAction {
    /// See whether the device is there.
    FindDevice,
    /// Set up a pool of that size.
    InitScratch(usize),
    /// Build the stack for messages of at most that size.
    BuildStack(usize, VdmBackend),
    /// Signal that the responder is ready.
    SignalReady,
    /// Serve requests until the run loop ends.
    Run,
    /// The task is over: there is no device.
    NoDevice,
    /// The task is over: the run loop ended, with an error code or without.
    Ended(Option<u32>),
}

/// How the pending action went.
#[derive(Clone, Copy, Debug, PartialEq, Eq, Structural)]
pub enum TaskEvent {
    /// Whether the device is there.
    Device(bool),
    /// The action is carried out.
    Completed,
    /// The run loop ended, with an error code or without.
    RunEnded(Option<u32>),
}

/// The pool of a transport's task.
pub open spec fn pool_of(transport: ResponderTransport) -> usize {
    match transport {
        ResponderTransport::Mctp => MCTP_SPDM_SCRATCH_SIZE,
        ResponderTransport::Doe => DOE_SPDM_SCRATCH_SIZE,
    }
}

/// Who handles vendor-defined requests on a transport, in a build for the TDISP
/// and IDE validator or not. Caliptra's commands are served over MCTP only.
pub open spec fn backend_of(transport: ResponderTransport, tdisp_ide: bool) -> VdmBackend {
    match transport {
        ResponderTransport::Mctp => VdmBackend::Caliptra,
        ResponderTransport::Doe => if tdisp_ide {
            VdmBackend::PciSig(TEST_PCI_SIG_VENDOR_ID)
        } else {
            VdmBackend::Disabled
        },
    }
}

/// The first action of a task.
pub open spec fn first_action(transport: ResponderTransport) -> TaskAction {
    match transport {
        ResponderTransport::Mctp => TaskAction::InitScratch(pool_of(transport)),
        ResponderTransport::Doe => TaskAction::FindDevice,
    }
}

/// What follows `pending` when it went as `event` says. An event that does not
/// belong to the pending action changes nothing.
pub open spec fn next_action(
    transport: ResponderTransport,
    tdisp_ide: bool,
    pending: TaskAction,
    event: TaskEvent,
) -> TaskAction {
    match (pending, event) {
        (TaskAction::FindDevice, TaskEvent::Device(exists)) => if exists {
            TaskAction::InitScratch(pool_of(transport))
        } else {
            TaskAction::NoDevice
        },
        (TaskAction::InitScratch(_), TaskEvent::Completed) => TaskAction::BuildStack(
            MAX_SPDM_MSG_SIZE,
            backend_of(transport, tdisp_ide),
        ),
        (TaskAction::BuildStack(_, _), TaskEvent::Completed) => TaskAction::SignalReady,
        (TaskAction::SignalReady, TaskEvent::Completed) => TaskAction::Run,
        (TaskAction::Run, TaskEvent::RunEnded(code)) => TaskAction::Ended(code),
        _ => pending,
    }
}

/// A responder task.
pub struct ResponderTask {
    transport: ResponderTransport,
    tdisp_ide: bool,
    pending: TaskAction,
}

impl ResponderTask {
    /// The transport that is served.
    pub closed spec fn serves(&self) -> ResponderTransport {
        self.transport
    }

    /// Whether the build is for the TDISP and IDE validator.
    pub closed spec fn for_tdisp_ide(&self) -> bool {
        self.tdisp_ide
    }

    /// What is to be done next.
    pub closed spec fn upcoming(&self) -> TaskAction {
        self.pending
    }

    /// What is to be done next.
    pub fn pending(&self) -> (r: TaskAction)
        ensures
            r == self.upcoming(),
    {
        self.pending
    }

    /// Takes note of how the pending action went.
    pub fn report(&mut self, event: TaskEvent)
        ensures
            final(self).serves() == old(self).serves(),
            final(self).for_tdisp_ide() == old(self).for_tdisp_ide(),
            final(self).upcoming() == next_action(
                old(self).serves(),
                old(self).for_tdisp_ide(),
                old(self).upcoming(),
                event,
            ),
    {
        let following = match (self.pending, event) {
            (TaskAction::FindDevice, TaskEvent::Device(exists)) => if exists {
                TaskAction::InitScratch(pool_size(self.transport))
            } else {
                TaskAction::NoDevice
            },
            (TaskAction::InitScratch(_), TaskEvent::Completed) => TaskAction::BuildStack(
                MAX_SPDM_MSG_SIZE,
                vdm_backend(self.transport, self.tdisp_ide),
            ),
            (TaskAction::BuildStack(_, _), TaskEvent::Completed) => TaskAction::SignalReady,
            (TaskAction::SignalReady, TaskEvent::Completed) => TaskAction::Run,
            (TaskAction::Run, TaskEvent::RunEnded(code)) => TaskAction::Ended(code),
            _ => self.pending,
        };
        self.pending = following;
    }
}

/// The pool of a transport's task.
pub fn pool_size(transport: ResponderTransport) -> (r: usize)
    ensures
        r == pool_of(transport),
{
    match transport {
        ResponderTransport::Mctp => MCTP_SPDM_SCRATCH_SIZE,
        ResponderTransport::Doe => DOE_SPDM_SCRATCH_SIZE,
    }
}

/// Who handles vendor-defined requests on a transport.
pub fn vdm_backend(transport: ResponderTransport, tdisp_ide: bool) -> (r: VdmBackend)
    ensures
        r == backend_of(transport, tdisp_ide),
{
    match transport {
        ResponderTransport::Mctp => VdmBackend::Caliptra,
        ResponderTransport::Doe => if tdisp_ide {
            VdmBackend::PciSig(TEST_PCI_SIG_VENDOR_ID)
        } else {
            VdmBackend::Disabled
        },
    }
}

/// Begins the task that serves MCTP.
pub fn spdm_mctp_responder() -> (r: ResponderTask)
    ensures
        r.serves() == ResponderTransport::Mctp,
        !r.for_tdisp_ide(),
        r.upcoming() == first_action(ResponderTransport::Mctp),
{
    ResponderTask {
        transport: ResponderTransport::Mctp,
        tdisp_ide: false,
        pending: TaskAction::InitScratch(pool_size(ResponderTransport::Mctp)),
    }
}

/// Begins the task that serves DOE, in a build for the TDISP and IDE validator
/// or not.
pub fn spdm_doe_responder(tdisp_ide: bool) -> (r: ResponderTask)
    ensures
        r.serves() == ResponderTransport::Doe,
        r.for_tdisp_ide() == tdisp_ide,
        r.upcoming() == first_action(ResponderTransport::Doe),
{
    ResponderTask {
        transport: ResponderTransport::Doe,
        tdisp_ide,
        pending: TaskAction::FindDevice,
    }
}

/// The tasks to spawn, in their order: MCTP, and DOE where the build has it.
pub fn spawn_spdm_tasks(doe: bool) -> (r: Vec<ResponderTransport>)
    ensures
        r@ == if doe {
            seq![ResponderTransport::Mctp, ResponderTransport::Doe]
        } else {
            seq![ResponderTransport::Mctp]
        },
{
    let mut tasks: Vec<ResponderTransport> = Vec::new();
    tasks.push(ResponderTransport::Mctp);
    if doe {
        tasks.push(ResponderTransport::Doe);
    }
    tasks
}

/// Where a task stands after `events`.
pub open spec fn task_after(
    transport: ResponderTransport,
    tdisp_ide: bool,
    events: Seq<TaskEvent>,
) -> TaskAction
    decreases events.len(),
{
    if events.len() == 0 {
        first_action(transport)
    } else {
        next_action(
            transport,
            tdisp_ide,
            task_after(transport, tdisp_ide, events.drop_last()),
            events.last(),
        )
    }
}

/// A task serves requests only after it signalled that it is ready, signals
/// that only after its stack was built, and builds the stack only after its
/// pool was set up.
pub proof fn law_task_order(
    transport: ResponderTransport,
    tdisp_ide: bool,
    pending: TaskAction,
    event: TaskEvent,
)
    ensures
        ({
            let next = next_action(transport, tdisp_ide, pending, event);
            next != pending ==> {
                &&& next is Run ==> pending is SignalReady
                &&& next is SignalReady ==> pending is BuildStack
                &&& next is BuildStack ==> pending is InitScratch
                &&& next is InitScratch ==> pending is FindDevice
                &&& next is Ended ==> pending is Run
            }
        }),
{
}

/// Every pool that a task sets up, and every stack that it builds, is that of
/// its transport. Only the DOE task can find its device missing.
pub proof fn law_task_configuration(
    transport: ResponderTransport,
    tdisp_ide: bool,
    events: Seq<TaskEvent>,
)
    ensures
        match task_after(transport, tdisp_ide, events) {
            TaskAction::InitScratch(size) => size == pool_of(transport),
            TaskAction::BuildStack(size, backend) => size == MAX_SPDM_MSG_SIZE && backend
                == backend_of(transport, tdisp_ide),
            TaskAction::FindDevice | TaskAction::NoDevice => transport == ResponderTransport::Doe,
            _ => true,
        },
    decreases events.len(),
{
    if events.len() > 0 {
        law_task_configuration(transport, tdisp_ide, events.drop_last());
    }
}

/// How a task goes on. It ends for want of a device exactly if the device is
/// reported missing. A device that is there leads to a pool, the pool to a
/// stack for messages of 8 KiB, the stack to the ready signal, that to serving,
/// and the end of serving to the end of the task with the same code. No other
/// event changes anything.
pub proof fn law_task_goes_on(
    transport: ResponderTransport,
    tdisp_ide: bool,
    pending: TaskAction,
    event: TaskEvent,
)
    ensures
        ({
            let next = next_action(transport, tdisp_ide, pending, event);
            &&& next == TaskAction::NoDevice && pending != TaskAction::NoDevice <==> pending
                == TaskAction::FindDevice && event == TaskEvent::Device(false)
            &&& pending == TaskAction::FindDevice && event == TaskEvent::Device(true) ==> next
                == TaskAction::InitScratch(12288)
            &&& pending is InitScratch && event == TaskEvent::Completed ==> (next
                matches TaskAction::BuildStack(size, _) && size == 8192)
            &&& pending is BuildStack && event == TaskEvent::Completed ==> next
                == TaskAction::SignalReady
            &&& pending == TaskAction::SignalReady && event == TaskEvent::Completed ==> next
                == TaskAction::Run
            &&& pending == TaskAction::Run ==> (event matches TaskEvent::RunEnded(code) ==> next
                == TaskAction::Ended(code))
            &&& pending is NoDevice || pending is Ended ==> next == pending
            &&& event is Device && !(pending is FindDevice) ==> next == pending
            &&& event is RunEnded && !(pending is Run) ==> next == pending
            &&& event is Completed && (pending is FindDevice || pending is Run) ==> next == pending
        }),
{
}

/// From its first action on, a task whose device is there, and each of whose
/// steps is carried out, comes to serve requests, on either transport and in
/// either kind of build; it ends with the code that serving ends with.
pub proof fn law_task_comes_to_serve(
    transport: ResponderTransport,
    tdisp_ide: bool,
    code: Option<u32>,
)
    ensures
        first_action(ResponderTransport::Mctp) == TaskAction::InitScratch(12288),
        first_action(ResponderTransport::Doe) == TaskAction::FindDevice,
        ({
            let go = |p: TaskAction, e: TaskEvent| next_action(transport, tdisp_ide, p, e);
            let found = if transport == ResponderTransport::Doe {
                go(first_action(transport), TaskEvent::Device(true))
            } else {
                first_action(transport)
            };
            let pool = go(found, TaskEvent::Completed);
            let stack = go(pool, TaskEvent::Completed);
            let ready = go(stack, TaskEvent::Completed);
            &&& found == TaskAction::InitScratch(12288)
            &&& pool matches TaskAction::BuildStack(size, backend) && size == 8192 && backend == (
            match transport {
                ResponderTransport::Mctp => VdmBackend::Caliptra,
                ResponderTransport::Doe => if tdisp_ide {
                    VdmBackend::PciSig(1)
                } else {
                    VdmBackend::Disabled
                },
            })
            &&& stack == TaskAction::SignalReady
            &&& ready == TaskAction::Run
            &&& go(ready, TaskEvent::RunEnded(code)) == TaskAction::Ended(code)
        }),
{
}

/// A build for the TDISP and IDE validator differs from another only in who
/// handles vendor-defined requests, and over MCTP not at all.
pub proof fn law_builds_differ_in_backend_only(
    transport: ResponderTransport,
    pending: TaskAction,
    event: TaskEvent,
)
    ensures
        ({
            let a = next_action(transport, true, pending, event);
            let b = next_action(transport, false, pending, event);
            a == b || (transport == ResponderTransport::Doe && pending is InitScratch && a
                is BuildStack && b is BuildStack)
        }),
{
}

} // verus!
