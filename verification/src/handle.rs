use vstd::prelude::*;

verus! {

/// One OS process, as its owner tracks it.
///
/// On the master side a `ProcessHandle` stands for one forked worker and is
/// owned by the pool that forked it; on the worker side it is the process's
/// handle to itself.  The `pid` is fixed at creation; `alive` flips to false
/// exactly once, when the exit notification for this process arrives;
/// `disconnect_requested` records that a graceful disconnect has already been
/// asked for, so that asking again has no further effect.
#[derive(Clone, Copy, PartialEq, Eq, Structural, Debug)]
pub struct ProcessHandle {
    pub pid: i32,
    pub alive: bool,
    pub disconnect_requested: bool,
}

impl ProcessHandle {
    /// What one disconnect request does: the new handle state, and whether a
    /// disconnect signal is delivered to the host this time.
    pub open spec fn disconnect_step(w: ProcessHandle) -> (ProcessHandle, bool) {
        (
            ProcessHandle { disconnect_requested: true, ..w },
            !w.disconnect_requested,
        )
    }

    /// A fresh handle for a process the host just created under `pid`.
    pub fn new(pid: i32) -> (w: ProcessHandle)
        ensures
            w == (ProcessHandle { pid, alive: true, disconnect_requested: false }),
    {
        ProcessHandle { pid, alive: true, disconnect_requested: false }
    }

    pub fn pid(&self) -> (p: i32)
        ensures
            p == self.pid,
    {
        self.pid
    }

    pub fn is_alive(&self) -> (b: bool)
        ensures
            b == self.alive,
    {
        self.alive
    }

    /// Ask the process to disconnect gracefully.  Returns whether a
    /// disconnect signal is to be delivered to the host now: true only on the
    /// first request, so repeating the call sends nothing further.
    pub fn request_disconnect(&mut self) -> (emit: bool)
        ensures
            (*final(self), emit) == ProcessHandle::disconnect_step(*old(self)),
    {
        let emit: bool = !self.disconnect_requested;
        self.disconnect_requested = true;
        emit
    }

    /// Record the exit notification for this process.  The OS reports an
    /// exit exactly once, so the handle must still be alive.
    pub fn mark_exited(&mut self)
        requires
            old(self).alive,
        ensures
            *final(self) == (ProcessHandle { alive: false, ..*old(self) }),
    {
        self.alive = false;
    }
}

/// Requesting a disconnect is idempotent: after a first request, a second
/// one leaves the handle unchanged and delivers no further signal to the
/// host, so at most one disconnect — and hence at most one exit — ever
/// follows from any number of requests on the same handle.
pub proof fn lemma_disconnect_idempotent(w: ProcessHandle)
    ensures
        ({
            let (w1, first) = ProcessHandle::disconnect_step(w);
            let (w2, second) = ProcessHandle::disconnect_step(w1);
            &&& w2 == w1
            &&& second == false
            &&& first == !w.disconnect_requested
        }),
{
}

} // verus!
