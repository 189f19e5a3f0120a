use worker_pool::handle::ProcessHandle;
use worker_pool::pool::{ForkOutcome, WorkerPool};

fn all_forked(pids: &[i32]) -> Vec<ForkOutcome> {
    pids.iter().map(|&pid| ForkOutcome::Forked { pid }).collect()
}

#[test]
fn spawn_then_join_yields_one_event_per_worker() {
    let outcomes = all_forked(&[10, 11, 12, 13]);
    let (mut pool, failure) = WorkerPool::spawn(4, &outcomes);
    assert!(failure.is_none());
    assert_eq!(pool.workers.len(), 4);

    // completions arrive in an order unrelated to fork order
    pool.record_exit(12, 0, None);
    pool.record_exit(10, 0, None);
    pool.record_exit(13, 1, None);
    pool.record_exit(11, 0, None);

    assert!(pool.all_exited());
    let events = pool.wait_all_exited();
    assert_eq!(events.len(), 4);
}

#[test]
fn degenerate_empty_pool_is_immediately_all_exited() {
    let outcomes: Vec<ForkOutcome> = Vec::new();
    let (pool, failure) = WorkerPool::spawn(0, &outcomes);
    assert!(failure.is_none());
    assert!(pool.all_exited());
    assert_eq!(pool.wait_all_exited().len(), 0);
}

#[test]
fn completion_order_is_a_permutation_of_fork_order() {
    let outcomes = all_forked(&[21, 22, 23]);
    let (mut pool, failure) = WorkerPool::spawn(3, &outcomes);
    assert!(failure.is_none());

    pool.record_exit(23, 0, None);
    pool.record_exit(21, 0, None);
    pool.record_exit(22, 0, None);

    let mut completion_pids: Vec<i32> = pool.wait_all_exited().iter().map(|e| e.pid).collect();
    assert_eq!(completion_pids, vec![23, 21, 22]);
    completion_pids.sort();
    let mut fork_pids: Vec<i32> = pool.workers.iter().map(|w| w.pid()).collect();
    fork_pids.sort();
    assert_eq!(completion_pids, fork_pids);
}

#[test]
fn three_workers_report_in_completion_order() {
    // worker 2 exits first with code 0, then worker 1 with code 0, then
    // worker 3 through the TERM signal
    let outcomes = all_forked(&[201, 202, 203]);
    let (mut pool, failure) = WorkerPool::spawn(3, &outcomes);
    assert!(failure.is_none());

    pool.record_exit(202, 0, None);
    pool.record_exit(201, 0, None);
    pool.record_exit(203, 0, Some(String::from("TERM")));

    let events = pool.wait_all_exited();
    assert_eq!(events.len(), 3);
    assert_eq!(events[0].pid, 202);
    assert_eq!(events[0].exit_code, 0);
    assert!(events[0].signal.is_none());
    assert!(!events[0].unexpected_signal());
    assert_eq!(events[1].pid, 201);
    assert_eq!(events[1].exit_code, 0);
    assert!(events[1].signal.is_none());
    assert_eq!(events[2].pid, 203);
    assert_eq!(events[2].signal.as_deref(), Some("TERM"));
    assert!(events[2].unexpected_signal());
}

#[test]
fn fork_failure_keeps_the_workers_already_forked() {
    // the third of five forks fails
    let outcomes = vec![
        ForkOutcome::Forked { pid: 31 },
        ForkOutcome::Forked { pid: 32 },
        ForkOutcome::Failed,
        ForkOutcome::Forked { pid: 34 },
        ForkOutcome::Forked { pid: 35 },
    ];
    let (pool, failure) = WorkerPool::spawn(5, &outcomes);
    let failure = failure.expect("the third fork was refused");
    assert_eq!(failure.forked, 2);
    assert_eq!(pool.workers.len(), 2);
    assert!(pool.workers.iter().all(|w| w.is_alive()));
    assert_eq!(pool.events.len(), 0);
    assert!(!pool.all_exited());
}

#[test]
fn exit_report_is_served_even_after_the_fact() {
    let outcomes = all_forked(&[41]);
    let (mut pool, failure) = WorkerPool::spawn(1, &outcomes);
    assert!(failure.is_none());
    assert!(pool.exit_event_for(41).is_none());

    pool.record_exit(41, 7, None);

    // asking only after the exit occurred still yields the recorded data
    let event = pool.exit_event_for(41).expect("the exit is on record");
    assert_eq!(event.pid, 41);
    assert_eq!(event.exit_code, 7);
    assert!(event.signal.is_none());
    // and asking again yields the same single record
    let again = pool.exit_event_for(41).expect("the exit stays on record");
    assert_eq!(again.pid, 41);
    assert_eq!(again.exit_code, 7);
}

#[test]
fn disconnect_request_is_idempotent() {
    let mut handle = ProcessHandle::new(77);
    assert!(handle.is_alive());
    assert_eq!(handle.pid(), 77);
    let first = handle.request_disconnect();
    let second = handle.request_disconnect();
    assert!(first);
    assert!(!second);
    assert!(handle.is_alive());
}

#[test]
fn join_result_is_the_same_value_when_asked_twice() {
    let outcomes = all_forked(&[51, 52]);
    let (mut pool, failure) = WorkerPool::spawn(2, &outcomes);
    assert!(failure.is_none());
    pool.record_exit(52, 0, None);
    pool.record_exit(51, 0, None);
    let first: Vec<i32> = pool.wait_all_exited().iter().map(|e| e.pid).collect();
    let second: Vec<i32> = pool.wait_all_exited().iter().map(|e| e.pid).collect();
    assert_eq!(first, second);
    assert_eq!(first, vec![52, 51]);
}
