//! What a wait on the traced process can report.

use vstd::prelude::*;

verus! {

/// The number of the trap signal: a traced process stops with it at program
/// entry, at a breakpoint and after a single step.
pub const SIGTRAP: i32 = 5;

/// The state of the traced process after a wait.
#[derive(Clone, Copy, Debug, PartialEq, Eq, Structural)]
pub enum Status {
    /// The process stopped. Holds the number of the signal that stopped it
    /// and the instruction pointer at which it stands.
    Stopped(i32, usize),
    /// The process exited normally. Holds its exit code.
    Exited(i32),
    /// The process was ended by a signal. Holds the signal's number.
    Signaled(i32),
}

/// What the operating system reports for one wait, before the registers of a
/// stopped process have been read.
#[derive(Clone, Copy, Debug, PartialEq, Eq, Structural)]
pub enum WaitStatus {
    /// Normal exit, with the exit code.
    Exited(i32),
    /// Ended by an uncaught signal, with the signal's number.
    Signaled(i32),
    /// Stopped by a delivered signal, with the signal's number.
    Stopped(i32),
    /// Any other report. The engine has no use for one and treats it as fatal.
    Other,
}

impl Status {
    /// Whether this status ends the life of the process.
    pub open spec fn is_terminal(self) -> bool {
        self is Exited || self is Signaled
    }

    /// Whether this status ends the life of the process: an exit and a death
    /// by signal do, a stop does not.
    pub fn terminal(&self) -> (t: bool)
        ensures
            t == self.is_terminal(),
    {
        match self {
            Status::Stopped(_, _) => false,
            Status::Exited(_) => true,
            Status::Signaled(_) => true,
        }
    }

    /// Whether the process stands at a stop caused by the trap signal.
    pub open spec fn is_trap_stop(self) -> bool {
        self matches Status::Stopped(signal, _) && signal == SIGTRAP
    }

    /// Whether the process stands at a stop caused by the trap signal.
    pub fn trap_stop(&self) -> (t: bool)
        ensures
            t == self.is_trap_stop(),
    {
        match self {
            Status::Stopped(signal, _) => *signal == SIGTRAP,
            _ => false,
        }
    }
}

} // verus!
