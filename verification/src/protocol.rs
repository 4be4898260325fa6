//! The exchange between the engine and the tracing layer that serves it. The
//! engine never touches the traced process: it hands out one request at a
//! time and is told what came of it.

use crate::status::{Status, WaitStatus};
use vstd::prelude::*;

verus! {

/// One thing for the tracing layer to do on the traced process.
#[derive(Clone, Copy, Debug, PartialEq, Eq, Structural)]
pub enum Request {
    /// Block until the process changes state. Answered by `Reply::Waited`.
    Wait,
    /// Read the register snapshot. Answered by `Reply::Registers`.
    ReadRegisters,
    /// Set the instruction pointer and leave the other registers alone.
    SetInstructionPointer(usize),
    /// Read the machine word at an address. Answered by `Reply::Word`.
    ReadWord(usize),
    /// Write a machine word at an address.
    WriteWord(usize, u64),
    /// Run one instruction.
    Step,
    /// Let the process run freely.
    Resume,
    /// Ask, without blocking, whether the process still runs. Answered by
    /// `Reply::Alive`.
    Probe,
    /// Ask the operating system to end the process.
    Kill,
    /// Tell the user something.
    Notify(Notice),
}

/// A diagnostic for the user. None of them ends an operation.
#[derive(Clone, Copy, Debug, PartialEq, Eq, Structural)]
pub enum Notice {
    /// The original byte could not be put back at a breakpoint; holds the
    /// error number.
    RestoreFailed(i32),
    /// No trap could be written at the address; holds the address and the
    /// error number.
    InstallFailed(usize, i32),
    /// No trap was written at the address because the process no longer runs.
    NotRunning(usize),
    /// The process was ended by the signal while it made a single step.
    Signaled(i32),
    /// The process with this identifier is being killed.
    Killing(i32),
}

/// What came of a request.
#[derive(Clone, Copy, Debug, PartialEq, Eq, Structural)]
pub enum Reply {
    /// The request was carried out and has nothing to report.
    Done,
    /// The request failed with this error number.
    Failed(i32),
    /// The wait is over.
    Waited(WaitStatus),
    /// The instruction pointer and the frame base of the stopped process.
    Registers(usize, usize),
    /// The word read.
    Word(u64),
    /// Whether the process still runs.
    Alive(bool),
}

/// How an operation ended.
#[derive(Clone, Copy, Debug, PartialEq, Eq, Structural)]
pub enum Outcome {
    /// The process stands at its entry stop and every requested breakpoint
    /// has been tried.
    Launched,
    /// The first stop was not a trap stop: there is no process to control.
    LaunchFailed,
    /// A wait ended with this status.
    Status(Status),
    /// A request of the operation failed with this error number.
    Failed(i32),
    /// The breakpoint has been tried; a failure has been notified.
    BreakpointDone,
    /// The process was killed and reaped.
    Killed,
    /// The process could not be killed; nothing was waited for.
    NotKilled,
}

/// A broken assumption of the engine. The session cannot go on.
#[derive(Clone, Copy, Debug, PartialEq, Eq, Structural)]
pub enum Fatal {
    /// A wait reported something that is neither an exit, a death by signal
    /// nor a stop.
    UnexpectedWaitStatus,
    /// The single step over a restored breakpoint stopped with a signal
    /// other than the trap; holds the signal.
    StepInterrupted(i32),
    /// The wait for the single step failed; holds the error number.
    StepWaitFailed(i32),
    /// The killed process did not reach a terminal status.
    NotReaped,
    /// The reply does not answer the request that was outstanding.
    UnexpectedReply,
}

/// The engine's answer to a reply.
#[derive(Clone, Copy, Debug, PartialEq, Eq, Structural)]
pub enum Next {
    /// Carry this request out and come back with its reply.
    Ask(Request),
    /// The operation is over.
    Done(Outcome),
    /// The operation hit a fatal inconsistency.
    Abort(Fatal),
}

} // verus!
