use vstd::prelude::*;

use crate::handle::ProcessHandle;

verus! {

/// The delay a worker sleeps before disconnecting, when its embedding
/// program configures nothing else.
pub const DEFAULT_WORKER_DELAY_MS: i32 = 1000;

/// A worker's lifecycle: it runs, sleeps for its configured delay to
/// simulate work, requests a graceful disconnect, and exits through the
/// host's disconnect-triggers-exit mechanism.  No explicit forced exit
/// follows the disconnect.
#[derive(Clone, Copy, PartialEq, Eq, Structural, Debug)]
pub enum WorkerPhase {
    Running,
    Sleeping,
    Disconnecting,
    Exited,
}

/// What the worker asks its host to do next.  The host performs the action
/// and reports back; the decisions themselves are all taken here.
#[derive(Clone, Copy, PartialEq, Eq, Structural, Debug)]
pub enum WorkerAction {
    /// Suspend this worker cooperatively for `ms` milliseconds, then resume
    /// it.  Control does not proceed in the worker until the delay elapses,
    /// but the rest of the system keeps running.
    Sleep { ms: i32 },
    /// Deliver the worker's graceful-disconnect request.
    Disconnect,
}

/// The cooperative sleep: a single-fire suspension request that the host's
/// timer fulfils after `ms` milliseconds.  The worker yields control while
/// it waits and resumes exactly once, when the delay has elapsed.
pub fn rust_sleep(ms: i32) -> (a: WorkerAction)
    ensures
        a == (WorkerAction::Sleep { ms }),
{
    WorkerAction::Sleep { ms }
}

/// The worker-side body: this process's own handle, its configured delay,
/// and where it stands in its lifecycle.
#[derive(Clone, Copy, PartialEq, Eq, Structural, Debug)]
pub struct WorkerBody {
    pub phase: WorkerPhase,
    pub delay_ms: i32,
    pub handle: ProcessHandle,
}

impl WorkerBody {
    /// Well-formedness along the lifecycle: the disconnect request is made
    /// exactly at the step into `Disconnecting`, and the process is alive
    /// until it has exited.
    pub open spec fn wf(self) -> bool {
        &&& (self.phase == WorkerPhase::Running || self.phase == WorkerPhase::Sleeping)
            ==> !self.handle.disconnect_requested
        &&& (self.phase == WorkerPhase::Disconnecting || self.phase == WorkerPhase::Exited)
            ==> self.handle.disconnect_requested
        &&& (self.phase == WorkerPhase::Exited) <==> !self.handle.alive
    }

    /// A worker that just started running in the process with this pid.
    pub fn new(pid: i32, delay_ms: i32) -> (w: WorkerBody)
        ensures
            w.phase == WorkerPhase::Running,
            w.delay_ms == delay_ms,
            w.handle == (ProcessHandle { pid, alive: true, disconnect_requested: false }),
            w.wf(),
    {
        WorkerBody { phase: WorkerPhase::Running, delay_ms, handle: ProcessHandle::new(pid) }
    }

    /// The worker's first step: go to sleep for the configured delay.
    pub fn begin(&mut self) -> (a: WorkerAction)
        requires
            old(self).wf(),
            old(self).phase == WorkerPhase::Running,
        ensures
            final(self).phase == WorkerPhase::Sleeping,
            final(self).delay_ms == old(self).delay_ms,
            final(self).handle == old(self).handle,
            a == (WorkerAction::Sleep { ms: old(self).delay_ms }),
            final(self).wf(),
    {
        self.phase = WorkerPhase::Sleeping;
        rust_sleep(self.delay_ms)
    }

    /// The delay has elapsed: request the graceful disconnect.  Along this
    /// lifecycle the request is made here for the first time, so the
    /// disconnect signal is delivered to the host exactly once.
    pub fn sleep_elapsed(&mut self) -> (a: WorkerAction)
        requires
            old(self).wf(),
            old(self).phase == WorkerPhase::Sleeping,
        ensures
            final(self).phase == WorkerPhase::Disconnecting,
            final(self).delay_ms == old(self).delay_ms,
            final(self).handle.pid == old(self).handle.pid,
            final(self).handle.alive == old(self).handle.alive,
            final(self).handle.disconnect_requested,
            a == WorkerAction::Disconnect,
            final(self).wf(),
    {
        let _ = self.handle.request_disconnect();
        self.phase = WorkerPhase::Disconnecting;
        WorkerAction::Disconnect
    }

    /// The host reports that the disconnect has taken effect and this
    /// process is terminating: the lifecycle is over.
    pub fn disconnected(&mut self)
        requires
            old(self).wf(),
            old(self).phase == WorkerPhase::Disconnecting,
        ensures
            final(self).phase == WorkerPhase::Exited,
            final(self).delay_ms == old(self).delay_ms,
            final(self).handle.pid == old(self).handle.pid,
            !final(self).handle.alive,
            final(self).wf(),
    {
        self.handle.mark_exited();
        self.phase = WorkerPhase::Exited;
    }
}

} // verus!
