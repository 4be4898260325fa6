//! A mathematical model of the traced process, and the laws of breakpoint
//! handling that hold when the engine is served by it.
//!
//! The model answers what depends on the state of the process alone: reads
//! and writes of registers and memory, the liveness probe and notices. What
//! the process does when it runs is left open: a run of the engine against
//! the model ends where the engine asks to wait, step, resume or kill.

use crate::backtrace::{frame_of, Backtrace, Found, Frame, Query, Resolved, Stepped};
use crate::breakpoints::recorded;
use crate::inferior::{InferiorState, Installer, Phase, Purpose, Waiter};
use crate::protocol::{Next, Outcome, Reply, Request};
use crate::status::{WaitStatus, SIGTRAP};
use crate::word::{
    aligned, byte_of, lemma_patch_keeps_other_bytes, lemma_patch_round_trip, lemma_patch_same_byte,
    patch, TRAP,
};
use vstd::prelude::*;

verus! {

/// The error number with which the model refuses an access to memory that
/// is not mapped.
pub const EIO: i32 = 5;

/// The error number with which the model refuses to touch a process that no
/// longer runs.
pub const ESRCH: i32 = 3;

/// A stopped process as the tracing interface shows it.
pub ghost struct Target {
    /// The word at each mapped word-aligned address.
    pub memory: Map<usize, u64>,
    /// The instruction pointer.
    pub rip: usize,
    /// The frame base.
    pub rbp: usize,
    /// Whether the process still runs.
    pub alive: bool,
}

/// The start of the machine word that holds `addr`.
pub open spec fn base_of(addr: usize) -> usize {
    aligned(addr as int) as usize
}

impl Target {
    /// Whether the word that holds `addr` is mapped.
    pub open spec fn mapped(self, addr: usize) -> bool {
        self.memory.contains_key(base_of(addr))
    }

    /// The byte at `addr`.
    pub open spec fn byte(self, addr: usize) -> u8 {
        byte_of(self.memory[base_of(addr)], (addr % 8) as usize)
    }

    /// Whether the model answers `request`. It does not say what the process
    /// does when it runs, nor how a kill ends.
    pub open spec fn answers(request: Request) -> bool {
        match request {
            Request::Wait => false,
            Request::Step => false,
            Request::Resume => false,
            Request::Kill => false,
            _ => true,
        }
    }

    /// The process after `request`, and the reply to it.
    pub open spec fn respond(self, request: Request) -> (Target, Reply) {
        match request {
            Request::Probe => (self, Reply::Alive(self.alive)),
            Request::Notify(_) => (self, Reply::Done),
            Request::ReadRegisters => if self.alive {
                (self, Reply::Registers(self.rip, self.rbp))
            } else {
                (self, Reply::Failed(ESRCH))
            },
            Request::SetInstructionPointer(rip) => if self.alive {
                (Target { rip, ..self }, Reply::Done)
            } else {
                (self, Reply::Failed(ESRCH))
            },
            Request::ReadWord(addr) => if !self.alive {
                (self, Reply::Failed(ESRCH))
            } else if self.memory.contains_key(addr) {
                (self, Reply::Word(self.memory[addr]))
            } else {
                (self, Reply::Failed(EIO))
            },
            Request::WriteWord(addr, word) => if !self.alive {
                (self, Reply::Failed(ESRCH))
            } else if self.memory.contains_key(addr) {
                (Target { memory: self.memory.insert(addr, word), ..self }, Reply::Done)
            } else {
                (self, Reply::Failed(EIO))
            },
            _ => (self, Reply::Done),
        }
    }
}

/// Where a run of the engine against the model has come to.
pub ghost struct Run {
    /// The engine.
    pub state: InferiorState,
    /// The process.
    pub target: Target,
    /// The requests that the model has answered, in order.
    pub trace: Seq<Request>,
    /// The engine's last answer: the request that the model does not answer,
    /// or the end of the operation.
    pub next: Next,
}

/// Serves the engine from the model, starting with `request`, for at most
/// `limit` requests. The run ends early where the operation ends or the
/// engine asks what the model does not answer.
pub open spec fn run(state: InferiorState, target: Target, request: Request, limit: nat) -> Run
    decreases limit,
{
    if limit == 0 || !Target::answers(request) {
        Run { state, target, trace: Seq::empty(), next: Next::Ask(request) }
    } else {
        let (target1, reply) = target.respond(request);
        let (state1, next) = state.step(reply);
        match next {
            Next::Ask(request1) => {
                let rest = run(state1, target1, request1, (limit - 1) as nat);
                Run { trace: seq![request] + rest.trace, ..rest }
            },
            _ => Run { state: state1, target: target1, trace: seq![request], next },
        }
    }
}

/// Whether every byte but the one at `addr` is the same in `before` and
/// `after`, and the same addresses are mapped.
pub open spec fn same_but_at(before: Target, after: Target, addr: usize) -> bool {
    &&& after.memory.dom() == before.memory.dom()
    &&& forall|other: usize| other != addr ==> after.byte(other) == before.byte(other)
}

/// Writing byte `val` at `addr` through the word around it changes that
/// byte and no other.
proof fn lemma_word_write(target: Target, addr: usize, val: u8)
    requires
        target.mapped(addr),
    ensures
        ({
            let word = target.memory[base_of(addr)];
            let after = Target {
                memory: target.memory.insert(base_of(addr), patch(word, (addr % 8) as usize, val)),
                ..target
            };
            &&& after.byte(addr) == val
            &&& same_but_at(target, after, addr)
        }),
{
    let word = target.memory[base_of(addr)];
    let k = (addr % 8) as usize;
    let after = Target { memory: target.memory.insert(base_of(addr), patch(word, k, val)), ..target };
    lemma_patch_keeps_other_bytes(word, k, val);
    assert(after.memory.dom() =~= target.memory.dom());
    assert forall|other: usize| other != addr implies after.byte(other) == target.byte(other) by {
        if base_of(other) == base_of(addr) {
            assert(other % 8 != addr % 8);
        }
    }
}

/// Installing a breakpoint at an address that has none: the trap byte is in
/// memory at that address, every other byte is as before, and the table
/// holds the byte that stood there before the installation.
pub proof fn law_install(state: InferiorState, target: Target, addr: usize)
    requires
        target.alive,
        target.mapped(addr),
        !state.table.contains_key(addr),
    ensures
        ({
            let begun = state.begin_install(Installer::Caller, addr).0;
            let end = run(begun, target, Request::Probe, 3);
            &&& end.next == Next::Done(Outcome::BreakpointDone)
            &&& end.target.byte(addr) == TRAP
            &&& same_but_at(target, end.target, addr)
            &&& end.state.table == state.table.insert(addr, target.byte(addr))
            &&& end.state.table[addr] == target.byte(addr)
        }),
{
    reveal_with_fuel(run, 4);
    lemma_word_write(target, addr, TRAP);
}

/// Installing a breakpoint where the table has one already leaves the
/// table, and with it the recorded original byte, as it is, whatever memory
/// holds by then.
pub proof fn law_install_keeps_recorded_byte(state: InferiorState, target: Target, addr: usize)
    requires
        target.alive,
        target.mapped(addr),
        state.table.contains_key(addr),
    ensures
        ({
            let begun = state.begin_install(Installer::Caller, addr).0;
            let end = run(begun, target, Request::Probe, 3);
            &&& end.next == Next::Done(Outcome::BreakpointDone)
            &&& end.target.byte(addr) == TRAP
            &&& same_but_at(target, end.target, addr)
            &&& end.state.table == state.table
        }),
{
    reveal_with_fuel(run, 4);
    lemma_word_write(target, addr, TRAP);
}

/// Installing twice at one address: the second installation changes neither
/// the table nor memory.
pub proof fn law_install_twice(state: InferiorState, target: Target, addr: usize)
    requires
        target.alive,
        target.mapped(addr),
        !state.table.contains_key(addr),
    ensures
        ({
            let first = run(
                state.begin_install(Installer::Caller, addr).0,
                target,
                Request::Probe,
                3,
            );
            let second = run(
                first.state.begin_install(Installer::Caller, addr).0,
                first.target,
                Request::Probe,
                3,
            );
            &&& second.next == Next::Done(Outcome::BreakpointDone)
            &&& second.state.table == first.state.table
            &&& second.state.table[addr] == target.byte(addr)
            &&& second.target == first.target
        }),
{
    reveal_with_fuel(run, 4);
    lemma_word_write(target, addr, TRAP);
    let first = run(state.begin_install(Installer::Caller, addr).0, target, Request::Probe, 3);
    lemma_word_write(first.target, addr, TRAP);
    let word = first.target.memory[base_of(addr)];
    lemma_patch_same_byte(word, (addr % 8) as usize);
    assert(first.target.memory.insert(base_of(addr), word) =~= first.target.memory);
}

/// Putting the recorded byte back after an installation gives the memory
/// that was there before it: a read at the address yields the byte seen
/// before any trap was written.
pub proof fn law_restore_round_trip(state: InferiorState, target: Target, addr: usize)
    requires
        target.alive,
        target.mapped(addr),
        !state.table.contains_key(addr),
    ensures
        ({
            let installed = run(
                state.begin_install(Installer::Caller, addr).0,
                target,
                Request::Probe,
                3,
            );
            let begun = installed.state.begin_patch(
                Purpose::Restore,
                addr,
                installed.state.table[addr],
            ).0;
            let end = run(begun, installed.target, Request::ReadWord(base_of(addr)), 2);
            &&& end.next == Next::Ask(Request::SetInstructionPointer(addr))
            &&& end.target.byte(addr) == target.byte(addr)
            &&& end.target.memory == target.memory
            &&& end.state.table == installed.state.table
        }),
{
    reveal_with_fuel(run, 4);
    lemma_word_write(target, addr, TRAP);
    lemma_patch_round_trip(target.memory[base_of(addr)], (addr % 8) as usize, TRAP);
}

/// A resume from a stop that is no breakpoint hit lets the process run at
/// once, and touches neither memory nor the registers.
pub proof fn law_resume_elsewhere(state: InferiorState, target: Target)
    requires
        target.alive,
        !state.hit(target.rip),
    ensures
        ({
            let begun = state.ask(Phase::Locating, Request::ReadRegisters).0;
            let end = run(begun, target, Request::ReadRegisters, 4);
            &&& end.next == Next::Ask(Request::Resume)
            &&& end.trace == seq![Request::ReadRegisters]
            &&& end.target == target
            &&& end.state.table == state.table
        }),
{
    reveal_with_fuel(run, 3);
}

/// A resume from a breakpoint hit, up to the single step. With the process
/// parked one byte past the trap at `addr`, the engine puts the original
/// byte back, sets the instruction pointer to `addr`, and only then asks
/// for one step: the step runs the original instruction. Nothing else in
/// memory changes, and the table keeps its entry.
pub proof fn law_step_over_restores(state: InferiorState, target: Target, addr: usize)
    requires
        target.alive,
        target.mapped(addr),
        state.table.contains_key(addr),
        target.rip == addr + 1,
    ensures
        ({
            let begun = state.ask(Phase::Locating, Request::ReadRegisters).0;
            let end = run(begun, target, Request::ReadRegisters, 4);
            let word = target.memory[base_of(addr)];
            &&& end.next == Next::Ask(Request::Step)
            &&& end.state.phase == Phase::Stepping(addr)
            &&& end.state.table == state.table
            &&& end.target.rip == addr
            &&& end.target.byte(addr) == state.table[addr]
            &&& same_but_at(target, end.target, addr)
            &&& end.trace == seq![
                Request::ReadRegisters,
                Request::ReadWord(base_of(addr)),
                Request::WriteWord(
                    base_of(addr),
                    patch(word, (addr % 8) as usize, state.table[addr]),
                ),
                Request::SetInstructionPointer(addr),
            ]
        }),
{
    reveal_with_fuel(run, 5);
    lemma_word_write(target, addr, state.table[addr]);
    let begun = state.ask(Phase::Locating, Request::ReadRegisters).0;
    let end = run(begun, target, Request::ReadRegisters, 4);
    let word = target.memory[base_of(addr)];
    assert(end.trace =~= seq![
        Request::ReadRegisters,
        Request::ReadWord(base_of(addr)),
        Request::WriteWord(base_of(addr), patch(word, (addr % 8) as usize, state.table[addr])),
        Request::SetInstructionPointer(addr),
    ]);
}

/// A resume from a breakpoint hit, after the single step. When the step
/// ends in a trap stop, the engine writes the trap at `addr` again before
/// it lets the process run, asks for no second step, and leaves the
/// recorded original byte alone: the next pass through `addr` stops there
/// again. This holds whatever the step did to memory and registers.
pub proof fn law_step_over_rearms(state: InferiorState, target: Target, addr: usize)
    requires
        state.phase == Phase::Stepping(addr),
        state.table.contains_key(addr),
        target.alive,
        target.mapped(addr),
    ensures
        ({
            let (stepped, wait) = state.step(Reply::Done);
            let (stopped, look) = stepped.step(Reply::Waited(WaitStatus::Stopped(SIGTRAP)));
            let end = run(stopped, target, Request::ReadRegisters, 4);
            let word = target.memory[base_of(addr)];
            &&& wait == Next::Ask(Request::Wait)
            &&& look == Next::Ask(Request::ReadRegisters)
            &&& end.next == Next::Ask(Request::Resume)
            &&& end.state.phase == Phase::Resuming
            &&& end.state.table == state.table
            &&& end.target.byte(addr) == TRAP
            &&& same_but_at(target, end.target, addr)
            &&& end.trace == seq![
                Request::ReadRegisters,
                Request::Probe,
                Request::ReadWord(base_of(addr)),
                Request::WriteWord(base_of(addr), patch(word, (addr % 8) as usize, TRAP)),
            ]
        }),
{
    reveal_with_fuel(run, 5);
    lemma_word_write(target, addr, TRAP);
    let (stepped, wait) = state.step(Reply::Done);
    let (stopped, look) = stepped.step(Reply::Waited(WaitStatus::Stopped(SIGTRAP)));
    let end = run(stopped, target, Request::ReadRegisters, 4);
    let word = target.memory[base_of(addr)];
    assert(end.trace =~= seq![
        Request::ReadRegisters,
        Request::Probe,
        Request::ReadWord(base_of(addr)),
        Request::WriteWord(base_of(addr), patch(word, (addr % 8) as usize, TRAP)),
    ]);
}

/// When the single step over a breakpoint ends in the exit of the process,
/// the resume ends there with that exit: nothing is re-armed and no further
/// request is made.
pub proof fn law_exit_during_step(state: InferiorState, addr: usize, code: i32)
    requires
        state.phase == Phase::Stepping(addr),
    ensures
        ({
            let (stepped, wait) = state.step(Reply::Done);
            let (end, next) = stepped.step(Reply::Waited(WaitStatus::Exited(code)));
            &&& wait == Next::Ask(Request::Wait)
            &&& next == Next::Done(Outcome::Status(crate::status::Status::Exited(code)))
            &&& end.table == state.table
            &&& end.phase == Phase::Idle
        }),
{
}

/// An error of the tracing layer inside the step-over ends the resume with
/// that error, for the caller to handle: when the instruction pointer
/// cannot be set back, when the step is refused, and when the registers
/// cannot be read after the step. No step, no write and no resume follows;
/// the table stays as it is.
pub proof fn law_step_over_fails_early(state: InferiorState, addr: usize, signal: i32, errno: i32)
    requires
        state.phase == Phase::Rewinding(addr) || state.phase == Phase::Stepping(addr)
            || state.phase == Phase::Inspecting(Waiter::Step(addr), signal),
    ensures
        state.step(Reply::Failed(errno)) == (
            state.to(Phase::Idle),
            Next::Done(Outcome::Failed(errno)),
        ),
        state.step(Reply::Failed(errno)).0.table == state.table,
{
}

/// Whether `addr` is one of `pending[from..]`.
pub open spec fn among(pending: Seq<usize>, from: int, addr: usize) -> bool {
    exists|i: int| from <= i < pending.len() && #[trigger] pending[i] == addr
}

/// What holds once the launch has walked through `pending[from..]`,
/// starting with the engine in `state` and the process in `target`.
pub open spec fn installed_from(state: InferiorState, target: Target, from: int, end: Run) -> bool {
    &&& end.next == Next::Done(Outcome::Launched)
    &&& end.target.alive
    &&& end.target.memory.dom() == target.memory.dom()
    &&& forall|a: usize|
        #![trigger end.target.byte(a)]
        end.target.byte(a) == if among(state.pending, from, a) {
            TRAP
        } else {
            target.byte(a)
        }
    &&& forall|a: usize|
        #![trigger end.state.table.contains_key(a)]
        end.state.table.contains_key(a) <==> state.table.contains_key(a) || among(
            state.pending,
            from,
            a,
        )
    &&& forall|a: usize|
        #![trigger end.state.table[a]]
        end.state.table.contains_key(a) ==> end.state.table[a] == if state.table.contains_key(a) {
            state.table[a]
        } else {
            target.byte(a)
        }
}

/// The walk of the launch through the requested breakpoints, from `index`.
proof fn lemma_launch_installs_rest(state: InferiorState, target: Target, index: int)
    requires
        target.alive,
        0 <= index <= state.pending.len() <= usize::MAX,
        forall|i: int| index <= i < state.pending.len() ==> target.mapped(#[trigger] state.pending[i]),
    ensures
        ({
            let (begun, next) = state.install_from(index);
            match next {
                Next::Ask(request) => installed_from(
                    state,
                    target,
                    index,
                    run(begun, target, request, (3 * (state.pending.len() - index)) as nat),
                ),
                _ => installed_from(
                    state,
                    target,
                    index,
                    Run { state: begun, target, trace: Seq::empty(), next },
                ),
            }
        }),
    decreases state.pending.len() - index,
{
    let pending = state.pending;
    let (begun, next) = state.install_from(index);
    if index < pending.len() {
        let addr = pending[index];
        let limit = (3 * (pending.len() - index)) as nat;
        let end = run(begun, target, Request::Probe, limit);
        reveal_with_fuel(run, 4);
        lemma_word_write(target, addr, TRAP);
        let word = target.memory[base_of(addr)];
        let target1 = Target {
            memory: target.memory.insert(base_of(addr), patch(word, (addr % 8) as usize, TRAP)),
            ..target
        };
        let state1 = InferiorState {
            table: recorded(state.table, addr, target.byte(addr)),
            phase: Phase::Writing(
                Purpose::Install(Installer::Launch((index + 1) as usize)),
                addr,
                target.byte(addr),
            ),
            ..state
        };
        assert forall|i: int| index + 1 <= i < state1.pending.len() implies target1.mapped(
            #[trigger] state1.pending[i],
        ) by {
            assert(target.mapped(pending[i]));
        }
        lemma_launch_installs_rest(state1, target1, index + 1);
        let (begun2, next2) = state1.install_from(index + 1);
        let tail = match next2 {
            Next::Ask(request) => run(begun2, target1, request, (limit - 3) as nat),
            _ => Run { state: begun2, target: target1, trace: Seq::empty(), next: next2 },
        };
        assert forall|a: usize| among(pending, index, a) <==> (a == addr || among(
            pending,
            index + 1,
            a,
        )) by {
            if among(pending, index, a) {
                let i = choose|i: int| index <= i < pending.len() && #[trigger] pending[i] == a;
                assert(i == index || index + 1 <= i);
            }
            if among(pending, index + 1, a) {
                let i = choose|i: int| index + 1 <= i < pending.len() && #[trigger] pending[i] == a;
                assert(index <= i);
            }
            if a == addr {
                assert(pending[index] == a);
            }
        }
        assert forall|a: usize| #![trigger end.target.byte(a)] end.target.byte(a) == if among(
            pending,
            index,
            a,
        ) {
            TRAP
        } else {
            target.byte(a)
        } by {
            assert(tail.target.byte(a) == if among(state1.pending, index + 1, a) {
                TRAP
            } else {
                target1.byte(a)
            });
        }
        assert forall|a: usize| #![trigger end.state.table.contains_key(a)]
            end.state.table.contains_key(a) <==> state.table.contains_key(a) || among(
                pending,
                index,
                a,
            ) by {
            assert(tail.state.table.contains_key(a) <==> state1.table.contains_key(a) || among(
                state1.pending,
                index + 1,
                a,
            ));
        }
        assert forall|a: usize| #![trigger end.state.table[a]] end.state.table.contains_key(a)
            implies end.state.table[a] == if state.table.contains_key(a) {
            state.table[a]
        } else {
            target.byte(a)
        } by {
            assert(tail.state.table[a] == if state1.table.contains_key(a) {
                state1.table[a]
            } else {
                target1.byte(a)
            });
        }
    } else {
        assert forall|a: usize| !among(pending, index, a) by {
            if among(pending, index, a) {
                let i = choose|i: int| index <= i < pending.len() && #[trigger] pending[i] == a;
            }
        }
    }
}

/// A launch that meets the entry stop installs every requested breakpoint
/// before it hands control back: when it is over, each requested address
/// holds the trap, every other byte of memory is as before, and the table
/// maps exactly the requested addresses, each to the byte that stood there
/// before the launch.
pub proof fn law_launch_installs_all(pid: i32, breakpoints: Seq<usize>, target: Target)
    requires
        target.alive,
        breakpoints.len() <= usize::MAX,
        forall|i: int| 0 <= i < breakpoints.len() ==> target.mapped(#[trigger] breakpoints[i]),
    ensures
        ({
            let state = InferiorState {
                pid,
                table: Map::empty(),
                pending: breakpoints,
                phase: Phase::Waiting(Waiter::Launch),
            };
            let (stopped, look) = state.step(Reply::Waited(WaitStatus::Stopped(SIGTRAP)));
            let end = run(stopped, target, Request::ReadRegisters, (1 + 3 * breakpoints.len()) as nat);
            &&& look == Next::Ask(Request::ReadRegisters)
            &&& end.next == Next::Done(Outcome::Launched)
            &&& forall|a: usize|
                #![trigger end.target.byte(a)]
                end.target.byte(a) == if among(breakpoints, 0, a) {
                    TRAP
                } else {
                    target.byte(a)
                }
            &&& forall|a: usize|
                #![trigger end.state.table.contains_key(a)]
                end.state.table.contains_key(a) <==> among(breakpoints, 0, a)
            &&& forall|a: usize|
                #![trigger end.state.table[a]]
                among(breakpoints, 0, a) ==> end.state.table[a] == target.byte(a)
        }),
{
    let state = InferiorState {
        pid,
        table: Map::empty(),
        pending: breakpoints,
        phase: Phase::Waiting(Waiter::Launch),
    };
    let stopped = state.step(Reply::Waited(WaitStatus::Stopped(SIGTRAP))).0;
    reveal_with_fuel(run, 2);
    lemma_launch_installs_rest(stopped, target, 0);
}

/// What the model finds out for the stack walker. `symbols` is what the
/// resolver knows of each address.
pub open spec fn find(target: Target, symbols: spec_fn(usize) -> Resolved, query: Query) -> Found {
    match query {
        Query::Registers => if target.alive {
            Found::Registers(target.rip, target.rbp)
        } else {
            Found::Failed(ESRCH)
        },
        Query::Symbols(addr) => Found::Symbols(symbols(addr)),
        Query::Word(addr) => if !target.alive {
            Found::Failed(ESRCH)
        } else if target.memory.contains_key(addr) {
            Found::Word(target.memory[addr])
        } else {
            Found::Failed(EIO)
        },
    }
}

/// Where a walk against the model has come to.
pub ghost struct Walk {
    /// The walker.
    pub state: Backtrace,
    /// The frames handed out, innermost first.
    pub frames: Seq<Frame>,
    /// How many queries were answered.
    pub asked: nat,
    /// The walker's last answer.
    pub last: Stepped,
}

/// Serves the walker from the model, starting with `query`, for at most
/// `limit` queries.
pub open spec fn walk(
    state: Backtrace,
    target: Target,
    symbols: spec_fn(usize) -> Resolved,
    query: Query,
    limit: nat,
) -> Walk
    decreases limit,
{
    if limit == 0 {
        Walk { state, frames: Seq::empty(), asked: 0, last: Stepped::Ask(query) }
    } else {
        let (state1, stepped) = state.step(find(target, symbols, query));
        match stepped {
            Stepped::Ask(query1) => {
                let rest = walk(state1, target, symbols, query1, (limit - 1) as nat);
                Walk { asked: rest.asked + 1, ..rest }
            },
            Stepped::Frame(frame, Some(query1)) => {
                let rest = walk(state1, target, symbols, query1, (limit - 1) as nat);
                Walk { frames: seq![frame] + rest.frames, asked: rest.asked + 1, ..rest }
            },
            Stepped::Frame(frame, None) => Walk {
                state: state1,
                frames: seq![frame],
                asked: 1,
                last: stepped,
            },
            _ => Walk { state: state1, frames: Seq::empty(), asked: 1, last: stepped },
        }
    }
}

/// Whether `chain` is the call stack of the stopped process, as pairs of
/// instruction pointer and frame base, innermost first: it starts at the
/// registers, each frame but the last holds the pair of its caller (the
/// return address 8 bytes above the frame base, the caller's frame base at
/// the frame base), and the last frame, and no other, is in the entry
/// function.
pub open spec fn call_chain(
    target: Target,
    symbols: spec_fn(usize) -> Resolved,
    chain: Seq<(usize, usize)>,
) -> bool {
    &&& target.alive
    &&& chain.len() > 0
    &&& chain[0] == (target.rip, target.rbp)
    &&& forall|i: int|
        0 <= i < chain.len() ==> (frame_of(symbols((#[trigger] chain[i]).0)).is_entry() <==> i
            == chain.len() - 1)
    &&& forall|i: int|
        0 <= i < chain.len() - 1 ==> {
            let base = (#[trigger] chain[i]).1;
            let above = base.wrapping_add(8);
            &&& target.memory.contains_key(above)
            &&& target.memory[above] as usize == chain[i + 1].0
            &&& target.memory.contains_key(base)
            &&& target.memory[base] as usize == chain[i + 1].1
        }
}

/// The part of the walk that starts at frame `index` of the chain.
proof fn lemma_walk_from(
    target: Target,
    symbols: spec_fn(usize) -> Resolved,
    chain: Seq<(usize, usize)>,
    index: int,
    limit: nat,
)
    requires
        call_chain(target, symbols, chain),
        0 <= index < chain.len(),
        limit >= 3 * (chain.len() - 1 - index) + 1,
    ensures
        ({
            let end = walk(
                Backtrace::Resolving(chain[index].0, chain[index].1),
                target,
                symbols,
                Query::Symbols(chain[index].0),
                limit,
            );
            &&& end.state == Backtrace::Finished
            &&& end.last == Stepped::Frame(frame_of(symbols(chain[chain.len() - 1].0)), None)
            &&& end.asked == 3 * (chain.len() - 1 - index) + 1
            &&& end.frames.len() == chain.len() - index
            &&& forall|j: int|
                0 <= j < chain.len() - index ==> #[trigger] end.frames[j] == frame_of(
                    symbols(chain[index + j].0),
                )
        }),
    decreases chain.len() - index,
{
    reveal_with_fuel(walk, 4);
    let here = chain[index];
    let state = Backtrace::Resolving(here.0, here.1);
    let end = walk(state, target, symbols, Query::Symbols(here.0), limit);
    let frame = frame_of(symbols(here.0));
    if index == chain.len() - 1 {
        assert(end.frames =~= seq![frame]);
    } else {
        let caller = chain[index + 1];
        lemma_walk_from(target, symbols, chain, index + 1, (limit - 3) as nat);
        let rest = walk(
            Backtrace::Resolving(caller.0, caller.1),
            target,
            symbols,
            Query::Symbols(caller.0),
            (limit - 3) as nat,
        );
        assert(end.frames =~= seq![frame] + rest.frames);
        assert forall|j: int| 0 <= j < chain.len() - index implies #[trigger] end.frames[j]
            == frame_of(symbols(chain[index + j].0)) by {
            assert(j > 0 ==> end.frames[j] == rest.frames[j - 1]);
        }
    }
}

/// The walk over a well-formed call stack of `n` frames ends after
/// `3 * n - 1` queries. It hands out one frame for each frame of the stack,
/// innermost first, and the last one is the frame of the entry function.
pub proof fn law_walk_ends_at_entry(
    target: Target,
    symbols: spec_fn(usize) -> Resolved,
    chain: Seq<(usize, usize)>,
    limit: nat,
)
    requires
        call_chain(target, symbols, chain),
        limit >= 3 * chain.len() - 1,
    ensures
        ({
            let end = walk(Backtrace::Locating, target, symbols, Query::Registers, limit);
            &&& end.state == Backtrace::Finished
            &&& end.asked == 3 * chain.len() - 1
            &&& end.frames.len() == chain.len()
            &&& forall|j: int|
                0 <= j < chain.len() ==> #[trigger] end.frames[j] == frame_of(symbols(chain[j].0))
            &&& end.frames.last().is_entry()
            &&& end.last == Stepped::Frame(end.frames.last(), None)
        }),
{
    reveal_with_fuel(walk, 2);
    lemma_walk_from(target, symbols, chain, 0, (limit - 1) as nat);
}

/// A walk ends on the first read that fails: the frames handed out before
/// it stand, and no frame follows.
pub proof fn law_walk_stops_on_failed_read(state: Backtrace, errno: i32)
    requires
        state is ReadingReturn || state is ReadingBase || state is Locating,
    ensures
        state.step(Found::Failed(errno)) == (Backtrace::Finished, Stepped::Failed(errno)),
{
}

} // verus!
