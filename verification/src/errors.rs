use vstd::prelude::*;

verus! {

/// The OS refused to create a child process.  `forked` is how many workers
/// had been forked successfully before the refusal; those stay running and
/// cleaning them up is the caller's responsibility.
#[derive(Clone, Copy, PartialEq, Eq, Structural, Debug)]
pub struct ForkFailure {
    pub forked: usize,
}

/// Why the master cannot proceed at startup.
#[derive(Clone, Copy, PartialEq, Eq, Structural, Debug)]
pub enum StartupError {
    /// The worker-count argument was present but is not a positive integer.
    /// Surfaced before any fork is attempted.
    InvalidArgument,
    /// A fork was refused part-way through spawning.
    Fork(ForkFailure),
}

} // verus!
