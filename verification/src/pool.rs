use vstd::prelude::*;

use crate::errors::ForkFailure;
use crate::event::{signal_view, ExitEvent};
use crate::handle::ProcessHandle;

verus! {

/// The host's answer to one fork attempt.
#[derive(Clone, Copy, PartialEq, Eq, Structural, Debug)]
pub enum ForkOutcome {
    /// The OS created a child process and reported this pid.
    Forked { pid: i32 },
    /// The OS refused to create a child (resource exhaustion).
    Failed,
}

pub open spec fn is_forked(o: ForkOutcome) -> bool {
    match o {
        ForkOutcome::Forked { .. } => true,
        ForkOutcome::Failed => false,
    }
}

pub open spec fn forked_pid(o: ForkOutcome) -> int {
    match o {
        ForkOutcome::Forked { pid } => pid as int,
        ForkOutcome::Failed => 0,
    }
}

/// The pids of processes that are alive at the same time are distinct, so
/// the outcomes of one spawn phase never report the same pid twice.
pub open spec fn distinct_outcome_pids(s: Seq<ForkOutcome>) -> bool {
    forall|i: int, j: int|
        0 <= i < j < s.len() && is_forked(#[trigger] s[i]) && is_forked(#[trigger] s[j])
            ==> forked_pid(s[i]) != forked_pid(s[j])
}

/// The master's record of one spawn phase: the handles of the forked
/// workers in fork order, and the exit events collected so far in
/// completion order.  Once the spawn phase is over no worker is added or
/// removed; an exit notification flips exactly one handle to not-alive and
/// appends exactly one event.
pub struct WorkerPool {
    pub workers: Vec<ProcessHandle>,
    pub events: Vec<ExitEvent>,
}

impl WorkerPool {
    /// The fork-order sequence of worker pids.
    pub open spec fn worker_pids(self) -> Seq<int> {
        self.workers@.map_values(|w: ProcessHandle| w.pid as int)
    }

    /// The completion-order sequence of exited pids.
    pub open spec fn event_pids(self) -> Seq<int> {
        self.events@.map_values(|e: ExitEvent| e.pid as int)
    }

    pub open spec fn has_live_worker(self, pid: int) -> bool {
        exists|i: int|
            0 <= i < self.workers@.len() && (#[trigger] self.workers@[i]).pid as int == pid
                && self.workers@[i].alive
    }

    pub open spec fn has_event(self, pid: int) -> bool {
        exists|k: int|
            0 <= k < self.events@.len() && (#[trigger] self.events@[k]).pid as int == pid
    }

    pub open spec fn exited_worker_with_pid(self, pid: int) -> bool {
        exists|i: int|
            0 <= i < self.workers@.len() && (#[trigger] self.workers@[i]).pid as int == pid
                && !self.workers@[i].alive
    }

    pub open spec fn distinct_worker_pids(self) -> bool {
        forall|i: int, j: int|
            0 <= i < j < self.workers@.len() ==> (#[trigger] self.workers@[i]).pid != (
            #[trigger] self.workers@[j]).pid
    }

    pub open spec fn distinct_event_pids(self) -> bool {
        forall|k: int, l: int|
            0 <= k < l < self.events@.len() ==> (#[trigger] self.events@[k]).pid != (
            #[trigger] self.events@[l]).pid
    }

    /// Every collected event reports the exit of a worker of this pool,
    /// and that worker's handle is no longer alive.
    pub open spec fn events_match_workers(self) -> bool {
        forall|k: int|
            0 <= k < self.events@.len() ==> self.exited_worker_with_pid(
                (#[trigger] self.events@[k]).pid as int,
            )
    }

    /// Every worker whose handle is no longer alive has its exit on record.
    pub open spec fn exited_workers_have_events(self) -> bool {
        forall|i: int|
            0 <= i < self.workers@.len() && !(#[trigger] self.workers@[i]).alive
                ==> self.has_event(self.workers@[i].pid as int)
    }

    /// Well-formedness: pids are distinct on both sides, and the events
    /// correspond exactly to the workers that have exited.
    pub open spec fn inv(self) -> bool {
        &&& self.distinct_worker_pids()
        &&& self.distinct_event_pids()
        &&& self.events_match_workers()
        &&& self.exited_workers_have_events()
    }

    /// The join condition: every worker of the pool has reported its exit.
    pub open spec fn all_exited_spec(self) -> bool {
        forall|i: int| 0 <= i < self.workers@.len() ==> !(#[trigger] self.workers@[i]).alive
    }

    /// Fork `n` workers in sequence, from the host's answer to each fork
    /// attempt.  If attempt `k` fails, the remaining attempts are abandoned
    /// and the failure reports `k`, the number forked successfully; the pool
    /// still holds those `k` handles, all alive, and cleaning them up is the
    /// caller's concern.  `n == 0` is a valid degenerate pool that is
    /// immediately all-exited.
    pub fn spawn(n: usize, outcomes: &Vec<ForkOutcome>) -> (r: (WorkerPool, Option<ForkFailure>))
        requires
            outcomes@.len() == n,
            distinct_outcome_pids(outcomes@),
        ensures
            r.0.inv(),
            r.0.events@.len() == 0,
            r.0.workers@.len() <= n,
            forall|i: int|
                0 <= i < r.0.workers@.len() ==> {
                    &&& (#[trigger] r.0.workers@[i]).alive
                    &&& !r.0.workers@[i].disconnect_requested
                    &&& is_forked(outcomes@[i])
                    &&& r.0.workers@[i].pid as int == forked_pid(outcomes@[i])
                },
            match r.1 {
                None => r.0.workers@.len() == n && (forall|i: int|
                    0 <= i < n ==> is_forked(#[trigger] outcomes@[i])),
                Some(f) => {
                    &&& f.forked == r.0.workers@.len()
                    &&& f.forked < n
                    &&& !is_forked(outcomes@[f.forked as int])
                    &&& forall|i: int| 0 <= i < f.forked ==> is_forked(#[trigger] outcomes@[i])
                },
            },
    {
        let mut pool = WorkerPool { workers: Vec::new(), events: Vec::new() };
        let mut i: usize = 0;
        while i < n
            invariant
                i <= n,
                outcomes@.len() == n,
                distinct_outcome_pids(outcomes@),
                pool.events@.len() == 0,
                pool.workers@.len() == i,
                forall|j: int| 0 <= j < i ==> is_forked(#[trigger] outcomes@[j]),
                forall|j: int|
                    0 <= j < i ==> {
                        &&& (#[trigger] pool.workers@[j]).alive
                        &&& !pool.workers@[j].disconnect_requested
                        &&& pool.workers@[j].pid as int == forked_pid(outcomes@[j])
                    },
            decreases n - i,
        {
            match outcomes[i] {
                ForkOutcome::Forked { pid } => {
                    pool.workers.push(ProcessHandle::new(pid));
                },
                ForkOutcome::Failed => {
                    proof {
                        pool.lemma_all_alive_inv(outcomes@);
                    }
                    return (pool, Some(ForkFailure { forked: i }));
                },
            }
            i = i + 1;
        }
        proof {
            pool.lemma_all_alive_inv(outcomes@);
        }
        (pool, None)
    }

    /// A pool fresh from the spawn phase — every handle alive, its pid that
    /// of the matching fork outcome, and no event yet — is well formed.
    proof fn lemma_all_alive_inv(self, outcomes: Seq<ForkOutcome>)
        requires
            distinct_outcome_pids(outcomes),
            self.events@.len() == 0,
            self.workers@.len() <= outcomes.len(),
            forall|j: int|
                0 <= j < self.workers@.len() ==> (#[trigger] self.workers@[j]).alive
                    && is_forked(outcomes[j]) && self.workers@[j].pid as int == forked_pid(
                    outcomes[j],
                ),
        ensures
            self.inv(),
    {
        assert forall|i: int, j: int| 0 <= i < j < self.workers@.len() implies (
        #[trigger] self.workers@[i]).pid != (#[trigger] self.workers@[j]).pid by {
            assert(self.workers@[i].pid as int == forked_pid(outcomes[i]));
            assert(self.workers@[j].pid as int == forked_pid(outcomes[j]));
            assert(is_forked(outcomes[i]) && is_forked(outcomes[j]));
            assert(forked_pid(outcomes[i]) != forked_pid(outcomes[j]));
        }
    }

    /// The index of the still-alive worker with this pid.
    fn find_live_index(&self, pid: i32) -> (i: usize)
        requires
            self.has_live_worker(pid as int),
        ensures
            i < self.workers@.len(),
            self.workers@[i as int].pid == pid,
            self.workers@[i as int].alive,
    {
        let n = self.workers.len();
        let mut i: usize = 0;
        while i < n
            invariant
                i <= n,
                n == self.workers@.len(),
                self.has_live_worker(pid as int),
                forall|j: int|
                    0 <= j < i ==> !((#[trigger] self.workers@[j]).pid == pid
                        && self.workers@[j].alive),
            decreases n - i,
        {
            let w = self.workers[i];
            if w.pid == pid && w.alive {
                return i;
            }
            i = i + 1;
        }
        proof {
            let j = choose|j: int|
                0 <= j < self.workers@.len() && (#[trigger] self.workers@[j]).pid as int
                    == pid as int && self.workers@[j].alive;
            assert(false);
        }
        vstd::pervasive::unreached()
    }

    /// Ingest the host's exit notification for the worker with this pid:
    /// flip its handle to not-alive and append the event, in completion
    /// order.  The OS reports each exit exactly once, so the worker must
    /// still be alive; the single-fire completion therefore fires at most
    /// once per worker.  Returns the worker's fork-order index.
    pub fn record_exit(&mut self, pid: i32, code: i32, signal: Option<String>) -> (i: usize)
        requires
            old(self).inv(),
            old(self).has_live_worker(pid as int),
        ensures
            i < old(self).workers@.len(),
            old(self).workers@[i as int].pid == pid,
            old(self).workers@[i as int].alive,
            final(self).workers@ == old(self).workers@.update(
                i as int,
                (ProcessHandle { alive: false, ..old(self).workers@[i as int] }),
            ),
            final(self).events@.len() == old(self).events@.len() + 1,
            final(self).events@ == old(self).events@.push(final(self).events@.last()),
            final(self).events@.last()@.pid == pid as int,
            final(self).events@.last()@.exit_code == code as int,
            final(self).events@.last()@.signal == signal_view(signal),
            final(self).inv(),
    {
        let i = self.find_live_index(pid);
        let ghost prev = *self;
        self.workers[i].alive = false;
        self.events.push(ExitEvent::new(pid, code, signal));
        proof {
            let cur = *self;
            assert(cur.workers@ == prev.workers@.update(
                i as int,
                (ProcessHandle { alive: false, ..prev.workers@[i as int] }),
            ));
            assert(cur.events@ == prev.events@.push(cur.events@.last()));
            // The exiting worker was alive, so no earlier event carries its pid.
            assert forall|k: int| 0 <= k < prev.events@.len() implies (
            #[trigger] prev.events@[k]).pid != pid by {
                if prev.events@[k].pid == pid {
                    assert(prev.exited_worker_with_pid(prev.events@[k].pid as int));
                    let j = choose|j: int|
                        0 <= j < prev.workers@.len() && (#[trigger] prev.workers@[j]).pid as int
                            == pid as int && !prev.workers@[j].alive;
                    if j < i {
                        assert(prev.workers@[j].pid != prev.workers@[i as int].pid);
                    } else if i < j {
                        assert(prev.workers@[i as int].pid != prev.workers@[j].pid);
                    }
                    assert(false);
                }
            }
            assert forall|k: int, l: int| 0 <= k < l < cur.events@.len() implies (
            #[trigger] cur.events@[k]).pid != (#[trigger] cur.events@[l]).pid by {
                if l < prev.events@.len() {
                    assert(prev.events@[k].pid != prev.events@[l].pid);
                }
            }
            assert forall|k: int| 0 <= k < cur.events@.len() implies cur.exited_worker_with_pid(
                (#[trigger] cur.events@[k]).pid as int,
            ) by {
                if k < prev.events@.len() {
                    assert(prev.exited_worker_with_pid(prev.events@[k].pid as int));
                    let j = choose|j: int|
                        0 <= j < prev.workers@.len() && (#[trigger] prev.workers@[j]).pid as int
                            == prev.events@[k].pid as int && !prev.workers@[j].alive;
                    assert(j != i);
                    assert((cur.workers@[j]).pid as int == cur.events@[k].pid as int
                        && !cur.workers@[j].alive);
                } else {
                    assert((cur.workers@[i as int]).pid as int == cur.events@[k].pid as int
                        && !cur.workers@[i as int].alive);
                }
            }
            assert forall|j: int|
                0 <= j < cur.workers@.len() && !(#[trigger] cur.workers@[j]).alive implies cur
                .has_event(cur.workers@[j].pid as int) by {
                if j == i {
                    assert((cur.events@[cur.events@.len() - 1]).pid as int == pid as int);
                } else {
                    assert(!prev.workers@[j].alive);
                    assert(prev.has_event(prev.workers@[j].pid as int));
                    let k = choose|k: int|
                        0 <= k < prev.events@.len() && (#[trigger] prev.events@[k]).pid as int
                            == prev.workers@[j].pid as int;
                    assert((cur.events@[k]).pid as int == cur.workers@[j].pid as int);
                }
            }
        }
        i
    }

    /// Whether every worker of the pool has exited.  The embedding program
    /// keeps handing exit notifications to [`WorkerPool::record_exit`] until
    /// this holds; the suspension in between is the host's.
    pub fn all_exited(&self) -> (b: bool)
        ensures
            b == self.all_exited_spec(),
    {
        let n = self.workers.len();
        let mut i: usize = 0;
        while i < n
            invariant
                i <= n,
                n == self.workers@.len(),
                forall|j: int| 0 <= j < i ==> !(#[trigger] self.workers@[j]).alive,
            decreases n - i,
        {
            if self.workers[i].alive {
                return false;
            }
            i = i + 1;
        }
        true
    }

    /// The master's join point.  Control may reach this only once every
    /// worker's exit has been recorded; the sequence returned is the
    /// collected exit events in completion order — not fork order — and it
    /// holds exactly one event per forked worker.  Asking again returns the
    /// same value: the join is idempotent in its result.
    pub fn wait_all_exited(&self) -> (r: &Vec<ExitEvent>)
        requires
            self.inv(),
            self.all_exited_spec(),
        ensures
            r@ == self.events@,
            r@.len() == self.workers@.len(),
    {
        proof {
            self.lemma_join_counts_all_workers();
        }
        &self.events
    }

    /// The recorded exit of the worker with this pid, if that worker has
    /// already exited.  A callback registered after the exit occurred is
    /// thus never missed: it is served from this record.
    pub fn exit_event_for(&self, pid: i32) -> (r: Option<&ExitEvent>)
        ensures
            match r {
                Some(e) => exists|k: int|
                    0 <= k < self.events@.len() && (#[trigger] self.events@[k]).pid == pid && *e
                        == self.events@[k],
                None => !self.has_event(pid as int),
            },
    {
        let n = self.events.len();
        let mut k: usize = 0;
        while k < n
            invariant
                k <= n,
                n == self.events@.len(),
                forall|j: int| 0 <= j < k ==> (#[trigger] self.events@[j]).pid != pid,
            decreases n - k,
        {
            if self.events[k].pid == pid {
                return Some(&self.events[k]);
            }
            k = k + 1;
        }
        None
    }

    /// The sequence of exit events returned by the join is a permutation of
    /// the fork-order sequence of workers: same number of entries, the same
    /// set of pids, and no pid repeated on either side.  Only the order is
    /// left to real completion timing.
    pub proof fn lemma_completion_is_permutation(self)
        requires
            self.inv(),
            self.all_exited_spec(),
        ensures
            self.event_pids().no_duplicates(),
            self.worker_pids().no_duplicates(),
            self.event_pids().to_set() == self.worker_pids().to_set(),
            self.events@.len() == self.workers@.len(),
    {
        broadcast use vstd::set::group_set_axioms;

        assert forall|i: int, j: int|
            0 <= i < self.worker_pids().len() && 0 <= j < self.worker_pids().len() && i
                != j implies self.worker_pids()[i] != self.worker_pids()[j] by {
            if i < j {
                assert(self.workers@[i].pid != self.workers@[j].pid);
            } else {
                assert(self.workers@[j].pid != self.workers@[i].pid);
            }
        }
        assert forall|k: int, l: int|
            0 <= k < self.event_pids().len() && 0 <= l < self.event_pids().len() && k
                != l implies self.event_pids()[k] != self.event_pids()[l] by {
            if k < l {
                assert(self.events@[k].pid != self.events@[l].pid);
            } else {
                assert(self.events@[l].pid != self.events@[k].pid);
            }
        }
        assert forall|x: int|
            self.event_pids().to_set().contains(x) implies self.worker_pids().to_set().contains(
            x,
        ) by {
            let k = choose|k: int| 0 <= k < self.event_pids().len() && self.event_pids()[k] == x;
            assert(self.events@[k].pid as int == x);
            assert(self.exited_worker_with_pid(x));
            let j = choose|j: int|
                0 <= j < self.workers@.len() && (#[trigger] self.workers@[j]).pid as int == x && !self.workers@[j].alive;
            assert(self.worker_pids()[j] == x);
            assert(self.worker_pids().contains(x));
        }
        assert forall|x: int|
            self.worker_pids().to_set().contains(x) implies self.event_pids().to_set().contains(
            x,
        ) by {
            let i = choose|i: int| 0 <= i < self.worker_pids().len() && self.worker_pids()[i] == x;
            assert(self.workers@[i].pid as int == x);
            assert(!self.workers@[i].alive);
            assert(self.has_event(x));
            let k = choose|k: int|
                0 <= k < self.events@.len() && (#[trigger] self.events@[k]).pid as int == x;
            assert(self.event_pids()[k] == x);
            assert(self.event_pids().contains(x));
        }
        assert(self.event_pids().to_set() =~= self.worker_pids().to_set());
        self.event_pids().unique_seq_to_set();
        self.worker_pids().unique_seq_to_set();
    }

    /// The join yields exactly one exit event per forked worker, however
    /// the completions were ordered: as many events as workers, and every
    /// worker's pid on record.
    pub proof fn lemma_join_counts_all_workers(self)
        requires
            self.inv(),
            self.all_exited_spec(),
        ensures
            self.events@.len() == self.workers@.len(),
            forall|i: int|
                0 <= i < self.workers@.len() ==> self.has_event(
                    (#[trigger] self.workers@[i]).pid as int,
                ),
    {
        self.lemma_completion_is_permutation();
    }

    /// A worker that has already exited always has its exit on record, and
    /// only once: whoever asks for it after the fact is answered with the
    /// one recorded event, never with a second or a missing one.
    pub proof fn lemma_exit_report_never_missed(self, i: int)
        requires
            self.inv(),
            0 <= i < self.workers@.len(),
            !self.workers@[i].alive,
        ensures
            self.has_event(self.workers@[i].pid as int),
            forall|k: int, l: int|
                0 <= k < self.events@.len() && 0 <= l < self.events@.len()
                    && (#[trigger] self.events@[k]).pid == self.workers@[i].pid
                    && (#[trigger] self.events@[l]).pid == self.workers@[i].pid ==> k == l,
    {
        assert forall|k: int, l: int|
            0 <= k < self.events@.len() && 0 <= l < self.events@.len()
                && (#[trigger] self.events@[k]).pid == self.workers@[i].pid
                && (#[trigger] self.events@[l]).pid == self.workers@[i].pid implies k == l by {
            if k < l {
                assert(self.events@[k].pid != self.events@[l].pid);
            } else if l < k {
                assert(self.events@[l].pid != self.events@[k].pid);
            }
        }
    }
}

} // verus!
