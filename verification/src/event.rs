use vstd::prelude::*;

verus! {

/// The mathematical value of an exit notification's optional signal name.
pub open spec fn signal_view(s: Option<String>) -> Option<Seq<char>> {
    match s {
        Some(name) => Some(name@),
        None => None,
    }
}

/// The terminal record of one worker's termination: which process exited,
/// with what exit code, and — where the termination was signal-driven —
/// the name of the signal.  Produced exactly once per worker.
#[derive(Debug)]
pub struct ExitEvent {
    pub pid: i32,
    pub exit_code: i32,
    pub signal: Option<String>,
}

/// What an [`ExitEvent`] says, over plain mathematical values.
pub struct ExitEventView {
    pub pid: int,
    pub exit_code: int,
    pub signal: Option<Seq<char>>,
}

impl View for ExitEvent {
    type V = ExitEventView;

    open spec fn view(&self) -> ExitEventView {
        ExitEventView {
            pid: self.pid as int,
            exit_code: self.exit_code as int,
            signal: signal_view(self.signal),
        }
    }
}

impl ExitEvent {
    pub fn new(pid: i32, exit_code: i32, signal: Option<String>) -> (e: ExitEvent)
        ensures
            e@.pid == pid as int,
            e@.exit_code == exit_code as int,
            e@.signal == signal_view(signal),
    {
        ExitEvent { pid, exit_code, signal }
    }

    /// Whether this exit carried a signal rather than a clean code.  Such an
    /// exit is recorded here, and is not fatal to the master's join.
    pub fn unexpected_signal(&self) -> (b: bool)
        ensures
            b == (self@.signal is Some),
    {
        self.signal.is_some()
    }
}

} // verus!
