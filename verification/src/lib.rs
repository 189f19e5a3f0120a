//! A verified supervisor for a fixed-size pool of worker processes.
//!
//! A master process forks `n` workers, each worker sleeps briefly and then
//! requests a graceful disconnect, and the master waits until every worker
//! has exited.  The OS process-creation primitive and the host event loop
//! are external collaborators: the library models each forked process as a
//! [`handle::ProcessHandle`], tracks the pool's lifecycle in
//! [`pool::WorkerPool`], and decides the master's and the worker's next step
//! in [`supervisor`] and [`worker`].  The embedding program performs the
//! forks, sleeps and exit notifications and hands the results back as plain
//! values.

pub mod args;
pub mod errors;
pub mod event;
pub mod handle;
pub mod pool;
pub mod supervisor;
pub mod worker;
