use worker_pool::args::{parse_worker_count, DEFAULT_WORKER_COUNT};
use worker_pool::errors::{ForkFailure, StartupError};
use worker_pool::pool::ForkOutcome;
use worker_pool::supervisor::{decide_role, Master, MasterPhase, Role};
use worker_pool::worker::{rust_sleep, WorkerAction, WorkerBody, WorkerPhase, DEFAULT_WORKER_DELAY_MS};

fn bytes(s: &str) -> Vec<u8> {
    s.as_bytes().to_vec()
}

#[test]
fn absent_argument_means_four_workers() {
    assert_eq!(parse_worker_count(None), Ok(4));
    assert_eq!(DEFAULT_WORKER_COUNT, 4);
}

#[test]
fn malformed_argument_is_refused_before_any_fork() {
    assert_eq!(
        parse_worker_count(Some(&bytes("abc"))),
        Err(StartupError::InvalidArgument)
    );
    // and a master given such an argument never reaches the spawn phase:
    // parsing fails first, so no fork outcome is ever requested
    let master = Master::new();
    assert_eq!(master.phase, MasterPhase::Spawning);
    assert_eq!(master.pool.workers.len(), 0);
}

#[test]
fn worker_count_parsing_edges() {
    assert_eq!(parse_worker_count(Some(&bytes("7"))), Ok(7));
    assert_eq!(parse_worker_count(Some(&bytes("007"))), Ok(7));
    assert_eq!(parse_worker_count(Some(&bytes("2147483647"))), Ok(2147483647));
    assert_eq!(
        parse_worker_count(Some(&bytes("2147483648"))),
        Err(StartupError::InvalidArgument)
    );
    assert_eq!(
        parse_worker_count(Some(&bytes("0"))),
        Err(StartupError::InvalidArgument)
    );
    assert_eq!(
        parse_worker_count(Some(&bytes(""))),
        Err(StartupError::InvalidArgument)
    );
    assert_eq!(
        parse_worker_count(Some(&bytes("12a"))),
        Err(StartupError::InvalidArgument)
    );
    assert_eq!(
        parse_worker_count(Some(&bytes("-3"))),
        Err(StartupError::InvalidArgument)
    );
}

#[test]
fn role_is_decided_once_from_the_host() {
    assert_eq!(decide_role(true), Role::Worker);
    assert_eq!(decide_role(false), Role::Master);
}

#[test]
fn master_runs_spawning_waiting_done() {
    let outcomes = vec![
        ForkOutcome::Forked { pid: 61 },
        ForkOutcome::Forked { pid: 62 },
    ];
    let mut master = Master::new();
    assert_eq!(master.phase, MasterPhase::Spawning);
    assert!(master.spawn_workers(2, &outcomes).is_ok());
    assert_eq!(master.phase, MasterPhase::Waiting);
    assert!(!master.all_workers_exited());

    master.worker_exited(62, 0, None);
    master.worker_exited(61, 0, None);
    assert!(master.all_workers_exited());

    master.finish();
    assert_eq!(master.phase, MasterPhase::Done);
    let report = master.completion_report();
    assert_eq!(report.len(), 2);
    assert_eq!(report[0].pid, 62);
    assert_eq!(report[1].pid, 61);
}

#[test]
fn master_surfaces_fork_failure_with_the_count_forked() {
    let outcomes = vec![ForkOutcome::Forked { pid: 71 }, ForkOutcome::Failed];
    let mut master = Master::new();
    let r = master.spawn_workers(2, &outcomes);
    assert_eq!(r, Err(StartupError::Fork(ForkFailure { forked: 1 })));
    // the worker forked before the failure is kept, alive and un-joined
    assert_eq!(master.pool.workers.len(), 1);
    assert!(master.pool.workers[0].is_alive());
    assert_eq!(master.pool.events.len(), 0);
}

#[test]
fn worker_sleeps_then_disconnects_then_exits() {
    let mut body = WorkerBody::new(91, DEFAULT_WORKER_DELAY_MS);
    assert_eq!(body.phase, WorkerPhase::Running);
    assert_eq!(body.begin(), WorkerAction::Sleep { ms: 1000 });
    assert_eq!(body.phase, WorkerPhase::Sleeping);
    assert_eq!(body.sleep_elapsed(), WorkerAction::Disconnect);
    assert_eq!(body.phase, WorkerPhase::Disconnecting);
    assert!(body.handle.disconnect_requested);
    body.disconnected();
    assert_eq!(body.phase, WorkerPhase::Exited);
    assert!(!body.handle.is_alive());
}

#[test]
fn rust_sleep_requests_the_given_delay() {
    assert_eq!(rust_sleep(250), WorkerAction::Sleep { ms: 250 });
    assert_eq!(rust_sleep(0), WorkerAction::Sleep { ms: 0 });
}
