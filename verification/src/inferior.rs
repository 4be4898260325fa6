//! The process controller: a state machine that sequences the launch of a
//! traced process, the installation of breakpoints, the resume that steps
//! over a breakpoint, the wait and the kill. It decides; the tracing layer
//! acts (see `protocol`).

use crate::backtrace::{Backtrace, Query};
use crate::breakpoints::{recorded, BreakpointTable};
use crate::protocol::{Fatal, Next, Notice, Outcome, Reply, Request};
use crate::status::{Status, WaitStatus, SIGTRAP};
use crate::word::{align_addr_to_word, aligned, byte_at, byte_of, byte_offset, patch, with_byte, TRAP};
use vstd::prelude::*;

verus! {

/// On whose behalf a wait is made.
#[derive(Clone, Copy, Debug, PartialEq, Eq, Structural)]
pub enum Waiter {
    /// A wait of its own, or the last wait of a resume: the status goes to
    /// the caller.
    Caller,
    /// The launch, which waits for the entry stop.
    Launch,
    /// The single step over the breakpoint at this address.
    Step(usize),
    /// The kill, which waits for the process to be reaped.
    Kill,
}

/// On whose behalf a breakpoint is installed.
#[derive(Clone, Copy, Debug, PartialEq, Eq, Structural)]
pub enum Installer {
    /// An installation of its own.
    Caller,
    /// The launch. Holds the index, among the requested breakpoints, of the
    /// one to install next.
    Launch(usize),
    /// The resume, which puts the trap back after the single step.
    Rearm,
}

/// Why one byte of the process is written.
#[derive(Clone, Copy, Debug, PartialEq, Eq, Structural)]
pub enum Purpose {
    /// To put a trap in place.
    Install(Installer),
    /// To put the original byte back before the single step.
    Restore,
}

/// What follows a notice.
#[derive(Clone, Copy, Debug, PartialEq, Eq, Structural)]
pub enum Resumption {
    /// The installation is over.
    Installed(Installer),
    /// Set the instruction pointer back to this address.
    Rewind(usize),
    /// Let the process run.
    Resume,
    /// Wait for the killed process.
    Reap,
}

/// Where the engine stands: which request is outstanding, and what for.
#[derive(Clone, Copy, Debug, PartialEq, Eq, Structural)]
pub enum Phase {
    /// No operation is under way.
    Idle,
    /// `Wait` is outstanding.
    Waiting(Waiter),
    /// The process stopped with this signal; `ReadRegisters` is outstanding.
    Inspecting(Waiter, i32),
    /// `Probe` is outstanding, before a trap is written at this address.
    Probing(Installer, usize),
    /// `ReadWord` is outstanding: the byte at this address is to become this
    /// value.
    Reading(Purpose, usize, u8),
    /// `WriteWord` is outstanding: the byte at this address was this value.
    Writing(Purpose, usize, u8),
    /// `Notify` is outstanding.
    Noting(Resumption),
    /// `ReadRegisters` is outstanding, at the start of a resume.
    Locating,
    /// `SetInstructionPointer` to this address is outstanding.
    Rewinding(usize),
    /// `Step` over the breakpoint at this address is outstanding.
    Stepping(usize),
    /// `Resume` is outstanding.
    Resuming,
    /// `Kill` is outstanding.
    Killing,
}

/// The mathematical state of the process controller.
pub ghost struct InferiorState {
    /// The identifier of the traced process.
    pub pid: i32,
    /// The original byte of every breakpoint written so far.
    pub table: Map<usize, u8>,
    /// The breakpoints that the launch installs, in the order given.
    pub pending: Seq<usize>,
    /// The outstanding request and its purpose.
    pub phase: Phase,
}

impl InferiorState {
    /// This state in another phase.
    pub open spec fn to(self, phase: Phase) -> InferiorState {
        InferiorState { phase, ..self }
    }

    /// Hands out `request` and goes to `phase`.
    pub open spec fn ask(self, phase: Phase, request: Request) -> (InferiorState, Next) {
        (self.to(phase), Next::Ask(request))
    }

    /// Ends the operation with `outcome`.
    pub open spec fn done(self, outcome: Outcome) -> (InferiorState, Next) {
        (self.to(Phase::Idle), Next::Done(outcome))
    }

    /// Ends the operation on a fatal inconsistency.
    pub open spec fn abort(self, fatal: Fatal) -> (InferiorState, Next) {
        (self.to(Phase::Idle), Next::Abort(fatal))
    }

    /// Starts a wait.
    pub open spec fn begin_wait(self, who: Waiter) -> (InferiorState, Next) {
        self.ask(Phase::Waiting(who), Request::Wait)
    }

    /// Starts the installation of a breakpoint at `addr`: the liveness probe
    /// comes first.
    pub open spec fn begin_install(self, who: Installer, addr: usize) -> (InferiorState, Next) {
        self.ask(Phase::Probing(who, addr), Request::Probe)
    }

    /// Starts the write of `val` at `addr`: the word around it is read first.
    pub open spec fn begin_patch(self, purpose: Purpose, addr: usize, val: u8) -> (
        InferiorState,
        Next,
    ) {
        self.ask(Phase::Reading(purpose, addr, val), Request::ReadWord(aligned(addr as int) as usize))
    }

    /// Sets the instruction pointer back to `addr`.
    pub open spec fn begin_rewind(self, addr: usize) -> (InferiorState, Next) {
        self.ask(Phase::Rewinding(addr), Request::SetInstructionPointer(addr))
    }

    /// Lets the process run.
    pub open spec fn begin_resume(self) -> (InferiorState, Next) {
        self.ask(Phase::Resuming, Request::Resume)
    }

    /// The launch installs the requested breakpoints one after the other,
    /// from `index` on, and is over when none is left.
    pub open spec fn install_from(self, index: int) -> (InferiorState, Next) {
        if 0 <= index < self.pending.len() {
            self.begin_install(Installer::Launch((index + 1) as usize), self.pending[index])
        } else {
            self.done(Outcome::Launched)
        }
    }

    /// What follows an installation, whether or not it wrote the trap.
    pub open spec fn finish_install(self, who: Installer) -> (InferiorState, Next) {
        match who {
            Installer::Caller => self.done(Outcome::BreakpointDone),
            Installer::Launch(next) => self.install_from(next as int),
            Installer::Rearm => self.begin_resume(),
        }
    }

    /// What follows the write of one byte. `result` is the byte that stood
    /// at `addr` before, or the error of the read or the write.
    ///
    /// After a trap is written the original byte is recorded, unless the
    /// table has one for `addr` already; on an error the table stays as it
    /// is and the user is told. A restore that failed is notified too, and
    /// the resume goes on.
    pub open spec fn finish_patch(self, purpose: Purpose, addr: usize, result: Result<u8, i32>) -> (
        InferiorState,
        Next,
    ) {
        match purpose {
            Purpose::Install(who) => match result {
                Ok(original) => InferiorState {
                    table: recorded(self.table, addr, original),
                    ..self
                }.finish_install(who),
                Err(errno) => self.ask(
                    Phase::Noting(Resumption::Installed(who)),
                    Request::Notify(Notice::InstallFailed(addr, errno)),
                ),
            },
            Purpose::Restore => match result {
                Ok(_) => self.begin_rewind(addr),
                Err(errno) => self.ask(
                    Phase::Noting(Resumption::Rewind(addr)),
                    Request::Notify(Notice::RestoreFailed(errno)),
                ),
            },
        }
    }

    /// What follows a notice.
    pub open spec fn after_notice(self, then: Resumption) -> (InferiorState, Next) {
        match then {
            Resumption::Installed(who) => self.finish_install(who),
            Resumption::Rewind(addr) => self.begin_rewind(addr),
            Resumption::Resume => self.begin_resume(),
            Resumption::Reap => self.begin_wait(Waiter::Kill),
        }
    }

    /// What follows a wait. `result` is the decoded status, or the error of
    /// the wait.
    ///
    /// - The caller gets the status or the error.
    /// - The launch goes on to install the breakpoints if the process stands
    ///   at a trap stop, and has failed otherwise.
    /// - After the single step: an exit is handed to the caller at once; a
    ///   death by signal is notified, and the resume goes on; a trap stop
    ///   has the trap put back; any other stop, and a wait that failed, is
    ///   fatal.
    /// - The kill is over when the process has reached a terminal status;
    ///   anything else is fatal.
    pub open spec fn finish_wait(self, who: Waiter, result: Result<Status, i32>) -> (
        InferiorState,
        Next,
    ) {
        match who {
            Waiter::Caller => match result {
                Ok(status) => self.done(Outcome::Status(status)),
                Err(errno) => self.done(Outcome::Failed(errno)),
            },
            Waiter::Launch => match result {
                Ok(status) => if status.is_trap_stop() {
                    self.install_from(0)
                } else {
                    self.done(Outcome::LaunchFailed)
                },
                Err(_) => self.done(Outcome::LaunchFailed),
            },
            Waiter::Step(addr) => match result {
                Ok(Status::Exited(code)) => self.done(Outcome::Status(Status::Exited(code))),
                Ok(Status::Signaled(signal)) => self.ask(
                    Phase::Noting(Resumption::Resume),
                    Request::Notify(Notice::Signaled(signal)),
                ),
                Ok(Status::Stopped(signal, _)) => if signal == SIGTRAP {
                    self.begin_install(Installer::Rearm, addr)
                } else {
                    self.abort(Fatal::StepInterrupted(signal))
                },
                Err(errno) => self.abort(Fatal::StepWaitFailed(errno)),
            },
            Waiter::Kill => match result {
                Ok(status) => if status.is_terminal() {
                    self.done(Outcome::Killed)
                } else {
                    self.abort(Fatal::NotReaped)
                },
                Err(_) => self.abort(Fatal::NotReaped),
            },
        }
    }

    /// What follows a stop whose registers could not be read. After the
    /// single step the resume ends there with the error, as it does on any
    /// failed read or write of the registers; elsewhere the error counts as
    /// the error of the wait.
    pub open spec fn finish_inspect(self, who: Waiter, errno: i32) -> (InferiorState, Next) {
        match who {
            Waiter::Step(_) => self.done(Outcome::Failed(errno)),
            _ => self.finish_wait(who, Err(errno)),
        }
    }

    /// Whether the process, stopped at `rip`, has just run into the trap of
    /// a breakpoint: the trap is one byte long, so the breakpoint is at
    /// `rip - 1`.
    pub open spec fn hit(self, rip: usize) -> bool {
        rip > 0 && self.table.contains_key((rip - 1) as usize)
    }

    /// The transition of the engine: the state and the answer that follow
    /// `reply` to the outstanding request.
    pub open spec fn step(self, reply: Reply) -> (InferiorState, Next) {
        match self.phase {
            Phase::Idle => self.abort(Fatal::UnexpectedReply),
            Phase::Waiting(who) => match reply {
                Reply::Waited(WaitStatus::Exited(code)) => self.finish_wait(
                    who,
                    Ok(Status::Exited(code)),
                ),
                Reply::Waited(WaitStatus::Signaled(signal)) => self.finish_wait(
                    who,
                    Ok(Status::Signaled(signal)),
                ),
                Reply::Waited(WaitStatus::Stopped(signal)) => self.ask(
                    Phase::Inspecting(who, signal),
                    Request::ReadRegisters,
                ),
                Reply::Waited(WaitStatus::Other) => self.abort(Fatal::UnexpectedWaitStatus),
                Reply::Failed(errno) => self.finish_wait(who, Err(errno)),
                _ => self.abort(Fatal::UnexpectedReply),
            },
            Phase::Inspecting(who, signal) => match reply {
                Reply::Registers(rip, _) => self.finish_wait(who, Ok(Status::Stopped(signal, rip))),
                Reply::Failed(errno) => self.finish_inspect(who, errno),
                _ => self.abort(Fatal::UnexpectedReply),
            },
            Phase::Probing(who, addr) => match reply {
                Reply::Alive(true) => self.begin_patch(Purpose::Install(who), addr, TRAP),
                Reply::Alive(false) => self.ask(
                    Phase::Noting(Resumption::Installed(who)),
                    Request::Notify(Notice::NotRunning(addr)),
                ),
                Reply::Failed(_) => self.ask(
                    Phase::Noting(Resumption::Installed(who)),
                    Request::Notify(Notice::NotRunning(addr)),
                ),
                _ => self.abort(Fatal::UnexpectedReply),
            },
            Phase::Reading(purpose, addr, val) => match reply {
                Reply::Word(word) => self.ask(
                    Phase::Writing(purpose, addr, byte_of(word, (addr % 8) as usize)),
                    Request::WriteWord(
                        aligned(addr as int) as usize,
                        patch(word, (addr % 8) as usize, val),
                    ),
                ),
                Reply::Failed(errno) => self.finish_patch(purpose, addr, Err(errno)),
                _ => self.abort(Fatal::UnexpectedReply),
            },
            Phase::Writing(purpose, addr, original) => match reply {
                Reply::Done => self.finish_patch(purpose, addr, Ok(original)),
                Reply::Failed(errno) => self.finish_patch(purpose, addr, Err(errno)),
                _ => self.abort(Fatal::UnexpectedReply),
            },
            Phase::Noting(then) => match reply {
                Reply::Done => self.after_notice(then),
                _ => self.abort(Fatal::UnexpectedReply),
            },
            Phase::Locating => match reply {
                Reply::Registers(rip, _) => if self.hit(rip) {
                    self.begin_patch(
                        Purpose::Restore,
                        (rip - 1) as usize,
                        self.table[(rip - 1) as usize],
                    )
                } else {
                    self.begin_resume()
                },
                Reply::Failed(errno) => self.done(Outcome::Failed(errno)),
                _ => self.abort(Fatal::UnexpectedReply),
            },
            Phase::Rewinding(addr) => match reply {
                Reply::Done => self.ask(Phase::Stepping(addr), Request::Step),
                Reply::Failed(errno) => self.done(Outcome::Failed(errno)),
                _ => self.abort(Fatal::UnexpectedReply),
            },
            Phase::Stepping(addr) => match reply {
                Reply::Done => self.begin_wait(Waiter::Step(addr)),
                Reply::Failed(errno) => self.done(Outcome::Failed(errno)),
                _ => self.abort(Fatal::UnexpectedReply),
            },
            Phase::Resuming => match reply {
                Reply::Done => self.begin_wait(Waiter::Caller),
                Reply::Failed(errno) => self.done(Outcome::Failed(errno)),
                _ => self.abort(Fatal::UnexpectedReply),
            },
            Phase::Killing => match reply {
                Reply::Done => self.ask(
                    Phase::Noting(Resumption::Reap),
                    Request::Notify(Notice::Killing(self.pid)),
                ),
                Reply::Failed(_) => self.done(Outcome::NotKilled),
                _ => self.abort(Fatal::UnexpectedReply),
            },
        }
    }
}

/// The process controller. It owns the breakpoint table of one traced
/// process and knows which request to that process is outstanding.
pub struct Inferior {
    pid: i32,
    table: BreakpointTable,
    pending: Vec<usize>,
    phase: Phase,
}

impl View for Inferior {
    type V = InferiorState;

    closed spec fn view(&self) -> InferiorState {
        InferiorState {
            pid: self.pid,
            table: self.table@,
            pending: self.pending@,
            phase: self.phase,
        }
    }
}

impl Inferior {
    /// Takes control of the process `pid`, which was spawned to ask for
    /// tracing before it runs, and starts its launch: the first request is
    /// the wait for the entry stop. `breakpoints` are installed, in order,
    /// once that stop is confirmed.
    pub fn new(pid: i32, breakpoints: &Vec<usize>) -> (launch: (Inferior, Request))
        ensures
            launch.0@ == (InferiorState {
                pid,
                table: Map::<usize, u8>::empty(),
                pending: breakpoints@,
                phase: Phase::Waiting(Waiter::Launch),
            }),
            launch.1 == Request::Wait,
    {
        let mut pending: Vec<usize> = Vec::new();
        let mut i: usize = 0;
        while i < breakpoints.len()
            invariant
                i <= breakpoints.len(),
                pending@ == breakpoints@.subrange(0, i as int),
            decreases breakpoints.len() - i,
        {
            pending.push(breakpoints[i]);
            i += 1;
        }
        assert(pending@ == breakpoints@);
        let inferior = Inferior {
            pid,
            table: BreakpointTable::new(),
            pending,
            phase: Phase::Waiting(Waiter::Launch),
        };
        (inferior, Request::Wait)
    }

    /// The identifier of the traced process.
    pub fn pid(&self) -> (pid: i32)
        ensures
            pid == self@.pid,
    {
        self.pid
    }

    /// Where the engine stands.
    pub fn phase(&self) -> (phase: Phase)
        ensures
            phase == self@.phase,
    {
        self.phase
    }

    /// The original bytes recorded so far.
    pub fn breakpoints(&self) -> (table: &BreakpointTable)
        ensures
            table@ == self@.table,
    {
        &self.table
    }

    /// Starts a wait for the next change of state of the process. The
    /// operation ends with the decoded status, or with the error.
    pub fn wait(&mut self) -> (request: Request)
        ensures
            (final(self)@, Next::Ask(request)) == old(self)@.begin_wait(Waiter::Caller),
    {
        self.phase = Phase::Waiting(Waiter::Caller);
        Request::Wait
    }

    /// Starts a resume of the stopped process. A breakpoint that the process
    /// has just hit is stepped over first. The operation ends with the
    /// status of the next stop, exit or death, or with an error.
    pub fn cont(&mut self) -> (request: Request)
        ensures
            (final(self)@, Next::Ask(request)) == old(self)@.ask(
                Phase::Locating,
                Request::ReadRegisters,
            ),
    {
        self.phase = Phase::Locating;
        Request::ReadRegisters
    }

    /// Starts the installation of a breakpoint at `addr`.
    pub fn set_breakpoint(&mut self, addr: usize) -> (request: Request)
        ensures
            (final(self)@, Next::Ask(request)) == old(self)@.begin_install(Installer::Caller, addr),
    {
        self.phase = Phase::Probing(Installer::Caller, addr);
        Request::Probe
    }

    /// Starts the kill of the process.
    pub fn kill(&mut self) -> (request: Request)
        ensures
            (final(self)@, Next::Ask(request)) == old(self)@.ask(Phase::Killing, Request::Kill),
    {
        self.phase = Phase::Killing;
        Request::Kill
    }

    /// Starts a walk over the call stack of the stopped process. The walk
    /// reads the process and leaves the engine as it is.
    pub fn print_backtrace(&self) -> (start: (Backtrace, Query))
        ensures
            start == (Backtrace::Locating, Query::Registers),
    {
        Backtrace::new()
    }

    /// Takes the reply to the outstanding request and says what to do next.
    pub fn advance(&mut self, reply: Reply) -> (next: Next)
        ensures
            (final(self)@, next) == old(self)@.step(reply),
    {
        match self.phase {
            Phase::Idle => self.abort(Fatal::UnexpectedReply),
            Phase::Waiting(who) => match reply {
                Reply::Waited(WaitStatus::Exited(code)) => self.finish_wait(
                    who,
                    Ok(Status::Exited(code)),
                ),
                Reply::Waited(WaitStatus::Signaled(signal)) => self.finish_wait(
                    who,
                    Ok(Status::Signaled(signal)),
                ),
                Reply::Waited(WaitStatus::Stopped(signal)) => self.ask(
                    Phase::Inspecting(who, signal),
                    Request::ReadRegisters,
                ),
                Reply::Waited(WaitStatus::Other) => self.abort(Fatal::UnexpectedWaitStatus),
                Reply::Failed(errno) => self.finish_wait(who, Err(errno)),
                _ => self.abort(Fatal::UnexpectedReply),
            },
            Phase::Inspecting(who, signal) => match reply {
                Reply::Registers(rip, _) => self.finish_wait(who, Ok(Status::Stopped(signal, rip))),
                Reply::Failed(errno) => self.finish_inspect(who, errno),
                _ => self.abort(Fatal::UnexpectedReply),
            },
            Phase::Probing(who, addr) => match reply {
                Reply::Alive(true) => self.begin_patch(Purpose::Install(who), addr, TRAP),
                Reply::Alive(false) => self.ask(
                    Phase::Noting(Resumption::Installed(who)),
                    Request::Notify(Notice::NotRunning(addr)),
                ),
                Reply::Failed(_) => self.ask(
                    Phase::Noting(Resumption::Installed(who)),
                    Request::Notify(Notice::NotRunning(addr)),
                ),
                _ => self.abort(Fatal::UnexpectedReply),
            },
            Phase::Reading(purpose, addr, val) => match reply {
                Reply::Word(word) => {
                    let base = align_addr_to_word(addr);
                    let offset = byte_offset(addr);
                    let original = byte_at(word, offset);
                    let patched = with_byte(word, offset, val);
                    self.ask(Phase::Writing(purpose, addr, original), Request::WriteWord(base, patched))
                },
                Reply::Failed(errno) => self.finish_patch(purpose, addr, Err(errno)),
                _ => self.abort(Fatal::UnexpectedReply),
            },
            Phase::Writing(purpose, addr, original) => match reply {
                Reply::Done => self.finish_patch(purpose, addr, Ok(original)),
                Reply::Failed(errno) => self.finish_patch(purpose, addr, Err(errno)),
                _ => self.abort(Fatal::UnexpectedReply),
            },
            Phase::Noting(then) => match reply {
                Reply::Done => self.after_notice(then),
                _ => self.abort(Fatal::UnexpectedReply),
            },
            Phase::Locating => match reply {
                Reply::Registers(rip, _) => {
                    if rip > 0 {
                        match self.table.original(rip - 1) {
                            Some(instr) => self.begin_patch(Purpose::Restore, rip - 1, instr),
                            None => self.ask(Phase::Resuming, Request::Resume),
                        }
                    } else {
                        self.ask(Phase::Resuming, Request::Resume)
                    }
                },
                Reply::Failed(errno) => self.done(Outcome::Failed(errno)),
                _ => self.abort(Fatal::UnexpectedReply),
            },
            Phase::Rewinding(addr) => match reply {
                Reply::Done => self.ask(Phase::Stepping(addr), Request::Step),
                Reply::Failed(errno) => self.done(Outcome::Failed(errno)),
                _ => self.abort(Fatal::UnexpectedReply),
            },
            Phase::Stepping(addr) => match reply {
                Reply::Done => self.ask(Phase::Waiting(Waiter::Step(addr)), Request::Wait),
                Reply::Failed(errno) => self.done(Outcome::Failed(errno)),
                _ => self.abort(Fatal::UnexpectedReply),
            },
            Phase::Resuming => match reply {
                Reply::Done => self.ask(Phase::Waiting(Waiter::Caller), Request::Wait),
                Reply::Failed(errno) => self.done(Outcome::Failed(errno)),
                _ => self.abort(Fatal::UnexpectedReply),
            },
            Phase::Killing => match reply {
                Reply::Done => {
                    let pid = self.pid;
                    self.ask(Phase::Noting(Resumption::Reap), Request::Notify(Notice::Killing(pid)))
                },
                Reply::Failed(_) => self.done(Outcome::NotKilled),
                _ => self.abort(Fatal::UnexpectedReply),
            },
        }
    }

    fn ask(&mut self, phase: Phase, request: Request) -> (next: Next)
        ensures
            (final(self)@, next) == old(self)@.ask(phase, request),
    {
        self.phase = phase;
        Next::Ask(request)
    }

    fn done(&mut self, outcome: Outcome) -> (next: Next)
        ensures
            (final(self)@, next) == old(self)@.done(outcome),
    {
        self.phase = Phase::Idle;
        Next::Done(outcome)
    }

    fn abort(&mut self, fatal: Fatal) -> (next: Next)
        ensures
            (final(self)@, next) == old(self)@.abort(fatal),
    {
        self.phase = Phase::Idle;
        Next::Abort(fatal)
    }

    /// The start of the write of one byte: asks for the word around `addr`.
    fn begin_patch(&mut self, purpose: Purpose, addr: usize, val: u8) -> (next: Next)
        ensures
            (final(self)@, next) == old(self)@.begin_patch(purpose, addr, val),
    {
        let base = align_addr_to_word(addr);
        self.ask(Phase::Reading(purpose, addr, val), Request::ReadWord(base))
    }

    /// The launch's walk through the requested breakpoints.
    fn install_from(&mut self, index: usize) -> (next: Next)
        ensures
            (final(self)@, next) == old(self)@.install_from(index as int),
    {
        if index < self.pending.len() {
            let addr = self.pending[index];
            self.ask(Phase::Probing(Installer::Launch(index + 1), addr), Request::Probe)
        } else {
            self.done(Outcome::Launched)
        }
    }

    fn finish_install(&mut self, who: Installer) -> (next: Next)
        ensures
            (final(self)@, next) == old(self)@.finish_install(who),
    {
        match who {
            Installer::Caller => self.done(Outcome::BreakpointDone),
            Installer::Launch(index) => self.install_from(index),
            Installer::Rearm => self.ask(Phase::Resuming, Request::Resume),
        }
    }

    /// The end of the write of one byte, which is where the breakpoint table
    /// is filled.
    fn finish_patch(&mut self, purpose: Purpose, addr: usize, result: Result<u8, i32>) -> (next:
        Next)
        ensures
            (final(self)@, next) == old(self)@.finish_patch(purpose, addr, result),
    {
        match purpose {
            Purpose::Install(who) => match result {
                Ok(original) => {
                    self.table.record(addr, original);
                    self.finish_install(who)
                },
                Err(errno) => self.ask(
                    Phase::Noting(Resumption::Installed(who)),
                    Request::Notify(Notice::InstallFailed(addr, errno)),
                ),
            },
            Purpose::Restore => match result {
                Ok(_) => self.ask(Phase::Rewinding(addr), Request::SetInstructionPointer(addr)),
                Err(errno) => self.ask(
                    Phase::Noting(Resumption::Rewind(addr)),
                    Request::Notify(Notice::RestoreFailed(errno)),
                ),
            },
        }
    }

    fn after_notice(&mut self, then: Resumption) -> (next: Next)
        ensures
            (final(self)@, next) == old(self)@.after_notice(then),
    {
        match then {
            Resumption::Installed(who) => self.finish_install(who),
            Resumption::Rewind(addr) => self.ask(
                Phase::Rewinding(addr),
                Request::SetInstructionPointer(addr),
            ),
            Resumption::Resume => self.ask(Phase::Resuming, Request::Resume),
            Resumption::Reap => self.ask(Phase::Waiting(Waiter::Kill), Request::Wait),
        }
    }

    /// The end of a stop whose registers could not be read.
    fn finish_inspect(&mut self, who: Waiter, errno: i32) -> (next: Next)
        ensures
            (final(self)@, next) == old(self)@.finish_inspect(who, errno),
    {
        match who {
            Waiter::Step(_) => self.done(Outcome::Failed(errno)),
            _ => self.finish_wait(who, Err(errno)),
        }
    }

    /// The end of a wait, which is where each operation decides how to go
    /// on from the status.
    fn finish_wait(&mut self, who: Waiter, result: Result<Status, i32>) -> (next: Next)
        ensures
            (final(self)@, next) == old(self)@.finish_wait(who, result),
    {
        match who {
            Waiter::Caller => match result {
                Ok(status) => self.done(Outcome::Status(status)),
                Err(errno) => self.done(Outcome::Failed(errno)),
            },
            Waiter::Launch => match result {
                Ok(status) => {
                    if status.trap_stop() {
                        self.install_from(0)
                    } else {
                        self.done(Outcome::LaunchFailed)
                    }
                },
                Err(_) => self.done(Outcome::LaunchFailed),
            },
            Waiter::Step(addr) => match result {
                Ok(Status::Exited(code)) => self.done(Outcome::Status(Status::Exited(code))),
                Ok(Status::Signaled(signal)) => self.ask(
                    Phase::Noting(Resumption::Resume),
                    Request::Notify(Notice::Signaled(signal)),
                ),
                Ok(Status::Stopped(signal, _)) => {
                    if signal == SIGTRAP {
                        self.ask(Phase::Probing(Installer::Rearm, addr), Request::Probe)
                    } else {
                        self.abort(Fatal::StepInterrupted(signal))
                    }
                },
                Err(errno) => self.abort(Fatal::StepWaitFailed(errno)),
            },
            Waiter::Kill => match result {
                Ok(status) => {
                    if status.terminal() {
                        self.done(Outcome::Killed)
                    } else {
                        self.abort(Fatal::NotReaped)
                    }
                },
                Err(_) => self.abort(Fatal::NotReaped),
            },
        }
    }
}

} // verus!
