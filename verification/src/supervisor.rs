use vstd::prelude::*;

use crate::errors::StartupError;
use crate::event::{signal_view, ExitEvent};
use crate::handle::ProcessHandle;
use crate::pool::{distinct_outcome_pids, forked_pid, is_forked, ForkOutcome, WorkerPool};

verus! {

/// Which role this process plays.  Queried from the host once at startup
/// and immutable for the process's lifetime.
#[derive(Clone, Copy, PartialEq, Eq, Structural, Debug)]
pub enum Role {
    Master,
    Worker,
}

/// Role dispatch: a process that the host created as a forked worker runs
/// the worker body; the original process is the master.
pub fn decide_role(is_forked_worker: bool) -> (r: Role)
    ensures
        r == (if is_forked_worker {
            Role::Worker
        } else {
            Role::Master
        }),
{
    if is_forked_worker {
        Role::Worker
    } else {
        Role::Master
    }
}

/// Where the master stands: spawning its pool, waiting on the join, done.
#[derive(Clone, Copy, PartialEq, Eq, Structural, Debug)]
pub enum MasterPhase {
    Spawning,
    Waiting,
    Done,
}

/// The master body: its phase, and the pool of workers it forked.
pub struct Master {
    pub phase: MasterPhase,
    pub pool: WorkerPool,
}

impl Master {
    pub open spec fn wf(self) -> bool {
        &&& self.pool.inv()
        &&& self.phase == MasterPhase::Done ==> self.pool.all_exited_spec()
    }

    /// A master that has not spawned anything yet.
    pub fn new() -> (m: Master)
        ensures
            m.phase == MasterPhase::Spawning,
            m.pool.workers@.len() == 0,
            m.pool.events@.len() == 0,
            m.wf(),
    {
        Master { phase: MasterPhase::Spawning, pool: WorkerPool { workers: Vec::new(), events: Vec::new() } }
    }

    /// Spawn `count` workers from the host's fork answers and enter the
    /// waiting phase.  A fork failure aborts startup: the error carries how
    /// many workers were forked before it, and the pool keeps exactly those
    /// handles, all still alive — they are left running, and dealing with
    /// them is the caller's responsibility.
    pub fn spawn_workers(&mut self, count: usize, outcomes: &Vec<ForkOutcome>) -> (r: Result<
        (),
        StartupError,
    >)
        requires
            old(self).phase == MasterPhase::Spawning,
            outcomes@.len() == count,
            distinct_outcome_pids(outcomes@),
        ensures
            final(self).wf(),
            final(self).pool.events@.len() == 0,
            forall|i: int|
                0 <= i < final(self).pool.workers@.len() ==> {
                    &&& (#[trigger] final(self).pool.workers@[i]).alive
                    &&& is_forked(outcomes@[i])
                    &&& final(self).pool.workers@[i].pid as int == forked_pid(outcomes@[i])
                },
            match r {
                Ok(()) => {
                    &&& final(self).phase == MasterPhase::Waiting
                    &&& final(self).pool.workers@.len() == count
                    &&& forall|i: int| 0 <= i < count ==> is_forked(#[trigger] outcomes@[i])
                },
                Err(e) => {
                    &&& final(self).phase == MasterPhase::Spawning
                    &&& e matches StartupError::Fork(f) && f.forked < count
                        && f.forked == final(self).pool.workers@.len()
                        && !is_forked(outcomes@[f.forked as int])
                        && (forall|i: int| 0 <= i < f.forked ==> is_forked(#[trigger] outcomes@[i]))
                },
            },
    {
        let (pool, failure) = WorkerPool::spawn(count, outcomes);
        self.pool = pool;
        match failure {
            None => {
                self.phase = MasterPhase::Waiting;
                Ok(())
            },
            Some(f) => Err(StartupError::Fork(f)),
        }
    }

    /// The host reports that the worker with this pid exited: record it.
    pub fn worker_exited(&mut self, pid: i32, code: i32, signal: Option<String>) -> (i: usize)
        requires
            old(self).wf(),
            old(self).phase == MasterPhase::Waiting,
            old(self).pool.has_live_worker(pid as int),
        ensures
            final(self).phase == MasterPhase::Waiting,
            i < old(self).pool.workers@.len(),
            old(self).pool.workers@[i as int].pid == pid,
            old(self).pool.workers@[i as int].alive,
            final(self).pool.workers@ == old(self).pool.workers@.update(
                i as int,
                (ProcessHandle { alive: false, ..old(self).pool.workers@[i as int] }),
            ),
            final(self).pool.events@.len() == old(self).pool.events@.len() + 1,
            final(self).pool.events@ == old(self).pool.events@.push(
                final(self).pool.events@.last(),
            ),
            final(self).pool.events@.last()@.pid == pid as int,
            final(self).pool.events@.last()@.exit_code == code as int,
            final(self).pool.events@.last()@.signal == signal_view(signal),
            final(self).wf(),
    {
        self.pool.record_exit(pid, code, signal)
    }

    /// Whether the join condition holds: every forked worker has exited.
    pub fn all_workers_exited(&self) -> (b: bool)
        ensures
            b == self.pool.all_exited_spec(),
    {
        self.pool.all_exited()
    }

    /// The join has completed: the master is done.
    pub fn finish(&mut self)
        requires
            old(self).wf(),
            old(self).phase == MasterPhase::Waiting,
            old(self).pool.all_exited_spec(),
        ensures
            final(self).phase == MasterPhase::Done,
            final(self).pool == old(self).pool,
            final(self).wf(),
    {
        self.phase = MasterPhase::Done;
    }

    /// The collected exit events, in completion order: one per forked
    /// worker.  The same value however often it is asked for.
    pub fn completion_report(&self) -> (r: &Vec<ExitEvent>)
        requires
            self.wf(),
            self.phase == MasterPhase::Done,
        ensures
            r@ == self.pool.events@,
            r@.len() == self.pool.workers@.len(),
    {
        self.pool.wait_all_exited()
    }
}

} // verus!
