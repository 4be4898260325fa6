use deet::inferior::{Inferior, Installer, Phase, Waiter};
use deet::protocol::{Fatal, Next, Notice, Outcome, Reply, Request};
use deet::status::{Status, WaitStatus, SIGTRAP};
use std::collections::HashMap;

const EIO: i32 = 5;
const ESRCH: i32 = 3;
const SIGKILL: i32 = 9;
const SIGSEGV: i32 = 11;

/// A process that exists only in the test. Its instructions are one byte
/// long; `path` lists the addresses that it executes, in order. Executing
/// the trap byte stops it one byte past the trap.
struct Process {
    memory: HashMap<usize, u64>,
    path: Vec<usize>,
    position: usize,
    rip: usize,
    alive: bool,
    exited: bool,
    pending: Option<WaitStatus>,
    executed: Vec<(usize, u8)>,
    notices: Vec<Notice>,
    requests: Vec<Request>,
}

impl Process {
    fn new(code: &[(usize, u64)], path: &[usize]) -> Process {
        Process {
            memory: code.iter().cloned().collect(),
            path: path.to_vec(),
            position: 0,
            rip: path[0],
            alive: true,
            exited: false,
            pending: Some(WaitStatus::Stopped(SIGTRAP)),
            executed: Vec::new(),
            notices: Vec::new(),
            requests: Vec::new(),
        }
    }

    fn byte(&self, addr: usize) -> u8 {
        self.memory[&(addr & !7)].to_le_bytes()[addr % 8]
    }

    /// Executes the instruction at the instruction pointer. Returns false
    /// when the process has stopped or exited instead of going on.
    fn execute_one(&mut self) -> bool {
        if self.position == self.path.len() {
            self.alive = false;
            self.exited = true;
            self.pending = Some(WaitStatus::Exited(0));
            return false;
        }
        let addr = self.rip;
        assert_eq!(addr, self.path[self.position]);
        let byte = self.byte(addr);
        if byte == 0xcc {
            self.rip = addr + 1;
            self.pending = Some(WaitStatus::Stopped(SIGTRAP));
            return false;
        }
        self.executed.push((addr, byte));
        self.position += 1;
        if self.position < self.path.len() {
            self.rip = self.path[self.position];
        }
        true
    }

    fn perform(&mut self, request: Request) -> Reply {
        self.requests.push(request);
        match request {
            Request::Notify(notice) => {
                self.notices.push(notice);
                Reply::Done
            }
            Request::Probe => Reply::Alive(self.alive),
            Request::Wait => match self.pending.take() {
                Some(status) => Reply::Waited(status),
                None => Reply::Failed(ESRCH),
            },
            Request::Kill => {
                if self.exited {
                    return Reply::Failed(ESRCH);
                }
                self.alive = false;
                self.exited = true;
                self.pending = Some(WaitStatus::Signaled(SIGKILL));
                Reply::Done
            }
            _ if !self.alive => Reply::Failed(ESRCH),
            Request::ReadRegisters => Reply::Registers(self.rip, 0x7ffc_0000),
            Request::SetInstructionPointer(rip) => {
                self.rip = rip;
                Reply::Done
            }
            Request::ReadWord(addr) => match self.memory.get(&addr) {
                Some(word) => Reply::Word(*word),
                None => Reply::Failed(EIO),
            },
            Request::WriteWord(addr, word) => match self.memory.get_mut(&addr) {
                Some(slot) => {
                    *slot = word;
                    Reply::Done
                }
                None => Reply::Failed(EIO),
            },
            Request::Step => {
                if self.execute_one() {
                    self.pending = Some(WaitStatus::Stopped(SIGTRAP));
                    if self.position == self.path.len() {
                        self.alive = false;
                        self.exited = true;
                        self.pending = Some(WaitStatus::Exited(0));
                    }
                }
                Reply::Done
            }
            Request::Resume => {
                while self.execute_one() {}
                Reply::Done
            }
        }
    }
}

fn drive(inferior: &mut Inferior, first: Request, process: &mut Process) -> Next {
    let mut request = first;
    loop {
        let reply = process.perform(request);
        match inferior.advance(reply) {
            Next::Ask(next) => request = next,
            end => return end,
        }
    }
}

fn launch(process: &mut Process, breakpoints: &Vec<usize>) -> Inferior {
    let (mut inferior, first) = Inferior::new(4242, breakpoints);
    assert_eq!(first, Request::Wait);
    assert_eq!(drive(&mut inferior, first, process), Next::Done(Outcome::Launched));
    inferior
}

const CODE: [(usize, u64); 2] = [(0x401130, 0x8877665544332211), (0x401138, 0x0102030405060708)];
const F_ADDR: usize = 0x401136;

#[test]
fn launch_installs_every_breakpoint() {
    let mut process = Process::new(&CODE, &[0x401130]);
    let inferior = launch(&mut process, &vec![0x401136, 0x401139, 0x401131]);
    assert_eq!(inferior.pid(), 4242);
    assert_eq!(inferior.phase(), Phase::Idle);
    assert_eq!(process.memory[&0x401130], 0x88cc66554433cc11);
    assert_eq!(process.memory[&0x401138], 0x010203040506cc08);
    assert_eq!(inferior.breakpoints().len(), 3);
    assert_eq!(inferior.breakpoints().original(0x401136), Some(0x77));
    assert_eq!(inferior.breakpoints().original(0x401139), Some(0x07));
    assert_eq!(inferior.breakpoints().original(0x401131), Some(0x22));
    assert_eq!(inferior.breakpoints().original(0x401130), None);
    assert!(inferior.breakpoints().contains(0x401139));
    assert!(!inferior.breakpoints().contains(0x401138));
    assert!(process.notices.is_empty());
}

#[test]
fn launch_asks_in_the_order_of_the_protocol() {
    let mut process = Process::new(&CODE, &[0x401130]);
    launch(&mut process, &vec![F_ADDR]);
    assert_eq!(
        process.requests,
        vec![
            Request::Wait,
            Request::ReadRegisters,
            Request::Probe,
            Request::ReadWord(0x401130),
            Request::WriteWord(0x401130, 0x88cc665544332211),
        ]
    );
}

#[test]
fn launch_without_breakpoints_only_waits() {
    let mut process = Process::new(&CODE, &[0x401130]);
    let inferior = launch(&mut process, &vec![]);
    assert_eq!(process.requests, vec![Request::Wait, Request::ReadRegisters]);
    assert_eq!(inferior.breakpoints().len(), 0);
    assert_eq!(process.memory[&0x401130], 0x8877665544332211);
}

#[test]
fn launch_fails_unless_the_first_stop_is_a_trap() {
    let (mut inferior, _) = Inferior::new(1, &vec![F_ADDR]);
    assert_eq!(inferior.phase(), Phase::Waiting(Waiter::Launch));
    assert_eq!(
        inferior.advance(Reply::Waited(WaitStatus::Exited(0))),
        Next::Done(Outcome::LaunchFailed)
    );
    assert_eq!(inferior.phase(), Phase::Idle);

    let (mut inferior, _) = Inferior::new(1, &vec![F_ADDR]);
    assert_eq!(
        inferior.advance(Reply::Waited(WaitStatus::Signaled(SIGKILL))),
        Next::Done(Outcome::LaunchFailed)
    );

    let (mut inferior, _) = Inferior::new(1, &vec![F_ADDR]);
    assert_eq!(
        inferior.advance(Reply::Waited(WaitStatus::Stopped(SIGSEGV))),
        Next::Ask(Request::ReadRegisters)
    );
    assert_eq!(inferior.advance(Reply::Registers(0x1000, 0)), Next::Done(Outcome::LaunchFailed));
    assert_eq!(inferior.breakpoints().len(), 0);

    let (mut inferior, _) = Inferior::new(1, &vec![F_ADDR]);
    assert_eq!(inferior.advance(Reply::Failed(10)), Next::Done(Outcome::LaunchFailed));

    let (mut inferior, _) = Inferior::new(1, &vec![F_ADDR]);
    assert_eq!(
        inferior.advance(Reply::Waited(WaitStatus::Stopped(SIGTRAP))),
        Next::Ask(Request::ReadRegisters)
    );
    assert_eq!(inferior.advance(Reply::Failed(ESRCH)), Next::Done(Outcome::LaunchFailed));
}

#[test]
fn install_writes_the_trap_and_records_the_original() {
    let mut process = Process::new(&CODE, &[0x401130]);
    let mut inferior = launch(&mut process, &vec![]);
    let first = inferior.set_breakpoint(F_ADDR);
    assert_eq!(first, Request::Probe);
    assert_eq!(inferior.phase(), Phase::Probing(Installer::Caller, F_ADDR));
    assert_eq!(drive(&mut inferior, first, &mut process), Next::Done(Outcome::BreakpointDone));
    assert_eq!(process.byte(F_ADDR), 0xcc);
    assert_eq!(process.memory[&0x401130], 0x88cc665544332211);
    assert_eq!(process.memory[&0x401138], 0x0102030405060708);
    assert_eq!(inferior.breakpoints().original(F_ADDR), Some(0x77));
    assert_eq!(inferior.breakpoints().len(), 1);
}

#[test]
fn install_twice_keeps_the_first_original() {
    let mut process = Process::new(&CODE, &[0x401130]);
    let mut inferior = launch(&mut process, &vec![F_ADDR, F_ADDR]);
    assert_eq!(inferior.breakpoints().original(F_ADDR), Some(0x77));
    let first = inferior.set_breakpoint(F_ADDR);
    assert_eq!(drive(&mut inferior, first, &mut process), Next::Done(Outcome::BreakpointDone));
    assert_eq!(inferior.breakpoints().original(F_ADDR), Some(0x77));
    assert_eq!(inferior.breakpoints().len(), 1);
    assert_eq!(process.memory[&0x401130], 0x88cc665544332211);
}

#[test]
fn install_on_unmapped_memory_is_notified_and_not_recorded() {
    let mut process = Process::new(&CODE, &[0x401130]);
    let mut inferior = launch(&mut process, &vec![0x500003, F_ADDR]);
    assert_eq!(process.notices, vec![Notice::InstallFailed(0x500003, EIO)]);
    assert_eq!(inferior.breakpoints().original(0x500003), None);
    assert_eq!(inferior.breakpoints().original(F_ADDR), Some(0x77));
    let first = inferior.set_breakpoint(0x600000);
    assert_eq!(drive(&mut inferior, first, &mut process), Next::Done(Outcome::BreakpointDone));
    assert_eq!(process.notices.len(), 2);
    assert_eq!(process.notices[1], Notice::InstallFailed(0x600000, EIO));
    assert_eq!(inferior.breakpoints().len(), 1);
}

#[test]
fn install_with_a_failing_write_is_notified_and_not_recorded() {
    let (mut inferior, _) = Inferior::new(1, &vec![]);
    assert_eq!(inferior.set_breakpoint(0x1003), Request::Probe);
    assert_eq!(inferior.advance(Reply::Alive(true)), Next::Ask(Request::ReadWord(0x1000)));
    assert_eq!(
        inferior.advance(Reply::Word(0x1111111111111111)),
        Next::Ask(Request::WriteWord(0x1000, 0x11111111cc111111))
    );
    assert_eq!(
        inferior.advance(Reply::Failed(14)),
        Next::Ask(Request::Notify(Notice::InstallFailed(0x1003, 14)))
    );
    assert_eq!(inferior.advance(Reply::Done), Next::Done(Outcome::BreakpointDone));
    assert_eq!(inferior.breakpoints().len(), 0);
}

#[test]
fn install_in_a_process_that_is_gone_does_nothing() {
    let mut process = Process::new(&CODE, &[0x401130]);
    let mut inferior = launch(&mut process, &vec![]);
    let first = inferior.cont();
    assert_eq!(
        drive(&mut inferior, first, &mut process),
        Next::Done(Outcome::Status(Status::Exited(0)))
    );
    process.requests.clear();
    let first = inferior.set_breakpoint(F_ADDR);
    assert_eq!(drive(&mut inferior, first, &mut process), Next::Done(Outcome::BreakpointDone));
    assert_eq!(
        process.requests,
        vec![Request::Probe, Request::Notify(Notice::NotRunning(F_ADDR))]
    );
    assert_eq!(inferior.breakpoints().len(), 0);
    assert_eq!(process.memory[&0x401130], 0x8877665544332211);
}

#[test]
fn resume_without_a_breakpoint_runs_to_the_exit() {
    let mut process = Process::new(&CODE, &[0x401130, 0x401131, 0x401132]);
    let mut inferior = launch(&mut process, &vec![]);
    process.requests.clear();
    let first = inferior.cont();
    assert_eq!(first, Request::ReadRegisters);
    assert_eq!(inferior.phase(), Phase::Locating);
    assert_eq!(
        drive(&mut inferior, first, &mut process),
        Next::Done(Outcome::Status(Status::Exited(0)))
    );
    assert_eq!(process.requests, vec![Request::ReadRegisters, Request::Resume, Request::Wait]);
}

#[test]
fn breakpoint_in_a_function_that_runs_once() {
    let mut process = Process::new(&CODE, &[0x401130, F_ADDR, 0x401137]);
    let mut inferior = launch(&mut process, &vec![F_ADDR]);

    let first = inferior.cont();
    assert_eq!(
        drive(&mut inferior, first, &mut process),
        Next::Done(Outcome::Status(Status::Stopped(SIGTRAP, F_ADDR + 1)))
    );
    assert!(process.alive);

    let first = inferior.cont();
    assert_eq!(
        drive(&mut inferior, first, &mut process),
        Next::Done(Outcome::Status(Status::Exited(0)))
    );

    let first = inferior.kill();
    assert_eq!(first, Request::Kill);
    assert_eq!(drive(&mut inferior, first, &mut process), Next::Done(Outcome::NotKilled));
    assert!(!process.alive);
    assert_eq!(process.executed, vec![(0x401130, 0x11), (F_ADDR, 0x77), (0x401137, 0x88)]);
}

#[test]
fn breakpoint_in_a_loop_stops_on_every_pass() {
    let path = [0x401130, F_ADDR, 0x401137, F_ADDR, 0x401137, F_ADDR, 0x401138];
    let mut process = Process::new(&CODE, &path);
    let mut inferior = launch(&mut process, &vec![F_ADDR]);

    for pass in 0..3 {
        let first = inferior.cont();
        assert_eq!(
            drive(&mut inferior, first, &mut process),
            Next::Done(Outcome::Status(Status::Stopped(SIGTRAP, F_ADDR + 1)))
        );
        assert_eq!(process.byte(F_ADDR), 0xcc);
        let at_f = process.executed.iter().filter(|(addr, _)| *addr == F_ADDR).count();
        assert_eq!(at_f, pass);
    }

    let first = inferior.kill();
    assert_eq!(drive(&mut inferior, first, &mut process), Next::Done(Outcome::Killed));
    assert!(!process.alive);
    assert_eq!(process.notices, vec![Notice::Killing(4242)]);
    assert_eq!(inferior.breakpoints().original(F_ADDR), Some(0x77));
}

#[test]
fn step_over_runs_the_original_instruction_once_and_rearms() {
    let path = [0x401130, F_ADDR, 0x401137, F_ADDR, 0x401138];
    let mut process = Process::new(&CODE, &path);
    let mut inferior = launch(&mut process, &vec![F_ADDR]);
    let first = inferior.cont();
    drive(&mut inferior, first, &mut process);
    process.requests.clear();
    process.executed.clear();

    let first = inferior.cont();
    assert_eq!(
        drive(&mut inferior, first, &mut process),
        Next::Done(Outcome::Status(Status::Stopped(SIGTRAP, F_ADDR + 1)))
    );
    assert_eq!(
        process.requests,
        vec![
            Request::ReadRegisters,
            Request::ReadWord(0x401130),
            Request::WriteWord(0x401130, 0x8877665544332211),
            Request::SetInstructionPointer(F_ADDR),
            Request::Step,
            Request::Wait,
            Request::ReadRegisters,
            Request::Probe,
            Request::ReadWord(0x401130),
            Request::WriteWord(0x401130, 0x88cc665544332211),
            Request::Resume,
            Request::Wait,
            Request::ReadRegisters,
        ]
    );
    assert_eq!(process.executed, vec![(F_ADDR, 0x77), (0x401137, 0x88)]);
    assert_eq!(process.byte(F_ADDR), 0xcc);
    assert_eq!(inferior.breakpoints().original(F_ADDR), Some(0x77));
}

#[test]
fn exit_during_the_step_ends_the_resume() {
    let mut process = Process::new(&CODE, &[0x401130, F_ADDR]);
    let mut inferior = launch(&mut process, &vec![F_ADDR]);
    let first = inferior.cont();
    drive(&mut inferior, first, &mut process);
    process.requests.clear();

    let first = inferior.cont();
    assert_eq!(
        drive(&mut inferior, first, &mut process),
        Next::Done(Outcome::Status(Status::Exited(0)))
    );
    assert_eq!(
        process.requests,
        vec![
            Request::ReadRegisters,
            Request::ReadWord(0x401130),
            Request::WriteWord(0x401130, 0x8877665544332211),
            Request::SetInstructionPointer(F_ADDR),
            Request::Step,
            Request::Wait,
        ]
    );
    assert_eq!(process.byte(F_ADDR), 0x77);
}

fn at_the_step(addr: usize) -> Inferior {
    let (mut inferior, _) = Inferior::new(77, &vec![addr]);
    inferior.advance(Reply::Waited(WaitStatus::Stopped(SIGTRAP)));
    inferior.advance(Reply::Registers(0x1000, 0));
    inferior.advance(Reply::Alive(true));
    inferior.advance(Reply::Word(0x9090909090909090));
    assert_eq!(inferior.advance(Reply::Done), Next::Done(Outcome::Launched));
    assert_eq!(inferior.cont(), Request::ReadRegisters);
    assert_eq!(
        inferior.advance(Reply::Registers(addr + 1, 0)),
        Next::Ask(Request::ReadWord(addr & !7))
    );
    inferior.advance(Reply::Word(0x9090909090909090));
    assert_eq!(inferior.advance(Reply::Done), Next::Ask(Request::SetInstructionPointer(addr)));
    assert_eq!(inferior.advance(Reply::Done), Next::Ask(Request::Step));
    assert_eq!(inferior.phase(), Phase::Stepping(addr));
    inferior
}

#[test]
fn other_signal_during_the_step_is_fatal() {
    let mut inferior = at_the_step(0x2004);
    assert_eq!(inferior.advance(Reply::Done), Next::Ask(Request::Wait));
    assert_eq!(
        inferior.advance(Reply::Waited(WaitStatus::Stopped(SIGSEGV))),
        Next::Ask(Request::ReadRegisters)
    );
    assert_eq!(
        inferior.advance(Reply::Registers(0x2004, 0)),
        Next::Abort(Fatal::StepInterrupted(SIGSEGV))
    );
    assert_eq!(inferior.phase(), Phase::Idle);
}

#[test]
fn failed_wait_after_the_step_is_fatal() {
    let mut inferior = at_the_step(0x2004);
    inferior.advance(Reply::Done);
    assert_eq!(inferior.advance(Reply::Failed(10)), Next::Abort(Fatal::StepWaitFailed(10)));
}

#[test]
fn death_by_signal_during_the_step_is_notified() {
    let mut inferior = at_the_step(0x2004);
    inferior.advance(Reply::Done);
    assert_eq!(
        inferior.advance(Reply::Waited(WaitStatus::Signaled(SIGKILL))),
        Next::Ask(Request::Notify(Notice::Signaled(SIGKILL)))
    );
    assert_eq!(inferior.advance(Reply::Done), Next::Ask(Request::Resume));
    assert_eq!(inferior.advance(Reply::Failed(ESRCH)), Next::Done(Outcome::Failed(ESRCH)));
}

#[test]
fn failed_step_ends_the_resume_with_the_error() {
    let mut inferior = at_the_step(0x2004);
    assert_eq!(inferior.advance(Reply::Failed(ESRCH)), Next::Done(Outcome::Failed(ESRCH)));
}

#[test]
fn failed_restore_is_notified_and_the_resume_goes_on() {
    let (mut inferior, _) = Inferior::new(77, &vec![0x2004]);
    inferior.advance(Reply::Waited(WaitStatus::Stopped(SIGTRAP)));
    inferior.advance(Reply::Registers(0x1000, 0));
    inferior.advance(Reply::Alive(true));
    inferior.advance(Reply::Word(0));
    inferior.advance(Reply::Done);
    inferior.cont();
    assert_eq!(inferior.advance(Reply::Registers(0x2005, 0)), Next::Ask(Request::ReadWord(0x2000)));
    assert_eq!(
        inferior.advance(Reply::Failed(EIO)),
        Next::Ask(Request::Notify(Notice::RestoreFailed(EIO)))
    );
    assert_eq!(inferior.advance(Reply::Done), Next::Ask(Request::SetInstructionPointer(0x2004)));
    assert_eq!(inferior.advance(Reply::Failed(ESRCH)), Next::Done(Outcome::Failed(ESRCH)));
    assert_eq!(inferior.phase(), Phase::Idle);
    assert_eq!(inferior.breakpoints().original(0x2004), Some(0));
}

#[test]
fn failed_rewind_ends_the_resume_with_the_error() {
    let (mut inferior, _) = Inferior::new(77, &vec![0x2004]);
    inferior.advance(Reply::Waited(WaitStatus::Stopped(SIGTRAP)));
    inferior.advance(Reply::Registers(0x1000, 0));
    inferior.advance(Reply::Alive(true));
    inferior.advance(Reply::Word(0x9090909090909090));
    inferior.advance(Reply::Done);
    inferior.cont();
    inferior.advance(Reply::Registers(0x2005, 0));
    inferior.advance(Reply::Word(0x909090cc90909090));
    assert_eq!(inferior.advance(Reply::Done), Next::Ask(Request::SetInstructionPointer(0x2004)));
    assert_eq!(inferior.phase(), Phase::Rewinding(0x2004));
    assert_eq!(inferior.advance(Reply::Failed(EIO)), Next::Done(Outcome::Failed(EIO)));
    assert_eq!(inferior.phase(), Phase::Idle);
    assert_eq!(inferior.advance(Reply::Done), Next::Abort(Fatal::UnexpectedReply));
}

#[test]
fn failed_register_read_after_the_step_ends_the_resume_with_the_error() {
    let mut inferior = at_the_step(0x2004);
    assert_eq!(inferior.advance(Reply::Done), Next::Ask(Request::Wait));
    assert_eq!(
        inferior.advance(Reply::Waited(WaitStatus::Stopped(SIGTRAP))),
        Next::Ask(Request::ReadRegisters)
    );
    assert_eq!(inferior.phase(), Phase::Inspecting(Waiter::Step(0x2004), SIGTRAP));
    assert_eq!(inferior.advance(Reply::Failed(ESRCH)), Next::Done(Outcome::Failed(ESRCH)));
    assert_eq!(inferior.phase(), Phase::Idle);
    assert_eq!(inferior.breakpoints().original(0x2004), Some(0x90));
}

#[test]
fn failed_register_read_elsewhere_is_the_error_of_the_wait() {
    let (mut inferior, _) = Inferior::new(5, &vec![]);
    inferior.advance(Reply::Waited(WaitStatus::Stopped(SIGTRAP)));
    assert_eq!(inferior.advance(Reply::Failed(ESRCH)), Next::Done(Outcome::LaunchFailed));
    inferior.kill();
    inferior.advance(Reply::Done);
    inferior.advance(Reply::Done);
    inferior.advance(Reply::Waited(WaitStatus::Stopped(19)));
    assert_eq!(inferior.advance(Reply::Failed(ESRCH)), Next::Abort(Fatal::NotReaped));
}

#[test]
fn resume_at_address_zero_looks_up_nothing() {
    let (mut inferior, _) = Inferior::new(77, &vec![usize::MAX]);
    inferior.advance(Reply::Waited(WaitStatus::Stopped(SIGTRAP)));
    inferior.advance(Reply::Registers(0x1000, 0));
    inferior.advance(Reply::Alive(true));
    assert_eq!(inferior.advance(Reply::Word(0)), Next::Ask(Request::WriteWord(usize::MAX - 7, 0xcc << 56)));
    inferior.advance(Reply::Done);
    assert!(inferior.breakpoints().contains(usize::MAX));
    inferior.cont();
    assert_eq!(inferior.advance(Reply::Registers(0, 0)), Next::Ask(Request::Resume));
}

#[test]
fn failed_register_read_ends_the_resume() {
    let (mut inferior, _) = Inferior::new(77, &vec![]);
    inferior.cont();
    assert_eq!(inferior.advance(Reply::Failed(ESRCH)), Next::Done(Outcome::Failed(ESRCH)));
    assert_eq!(inferior.phase(), Phase::Idle);
}

#[test]
fn wait_decodes_each_status() {
    let (mut inferior, _) = Inferior::new(77, &vec![]);
    assert_eq!(inferior.wait(), Request::Wait);
    assert_eq!(inferior.phase(), Phase::Waiting(Waiter::Caller));
    assert_eq!(
        inferior.advance(Reply::Waited(WaitStatus::Exited(3))),
        Next::Done(Outcome::Status(Status::Exited(3)))
    );
    inferior.wait();
    assert_eq!(
        inferior.advance(Reply::Waited(WaitStatus::Signaled(SIGSEGV))),
        Next::Done(Outcome::Status(Status::Signaled(SIGSEGV)))
    );
    inferior.wait();
    assert_eq!(
        inferior.advance(Reply::Waited(WaitStatus::Stopped(19))),
        Next::Ask(Request::ReadRegisters)
    );
    assert_eq!(inferior.phase(), Phase::Inspecting(Waiter::Caller, 19));
    assert_eq!(
        inferior.advance(Reply::Registers(0x7f00_1234, 0x7ffc_0010)),
        Next::Done(Outcome::Status(Status::Stopped(19, 0x7f00_1234)))
    );
    inferior.wait();
    assert_eq!(inferior.advance(Reply::Failed(10)), Next::Done(Outcome::Failed(10)));
    inferior.wait();
    inferior.advance(Reply::Waited(WaitStatus::Stopped(19)));
    assert_eq!(inferior.advance(Reply::Failed(ESRCH)), Next::Done(Outcome::Failed(ESRCH)));
}

#[test]
fn unknown_wait_status_is_fatal() {
    let (mut inferior, _) = Inferior::new(77, &vec![]);
    inferior.wait();
    assert_eq!(
        inferior.advance(Reply::Waited(WaitStatus::Other)),
        Next::Abort(Fatal::UnexpectedWaitStatus)
    );
    assert_eq!(inferior.phase(), Phase::Idle);
}

#[test]
fn reply_that_answers_nothing_is_fatal() {
    let (mut inferior, _) = Inferior::new(77, &vec![]);
    assert_eq!(inferior.advance(Reply::Word(1)), Next::Abort(Fatal::UnexpectedReply));
    assert_eq!(inferior.advance(Reply::Done), Next::Abort(Fatal::UnexpectedReply));
    inferior.cont();
    assert_eq!(inferior.advance(Reply::Alive(true)), Next::Abort(Fatal::UnexpectedReply));
    inferior.kill();
    assert_eq!(inferior.advance(Reply::Word(0)), Next::Abort(Fatal::UnexpectedReply));
}

#[test]
fn kill_waits_for_a_terminal_status() {
    let (mut inferior, _) = Inferior::new(31, &vec![]);
    assert_eq!(inferior.kill(), Request::Kill);
    assert_eq!(inferior.phase(), Phase::Killing);
    assert_eq!(inferior.advance(Reply::Done), Next::Ask(Request::Notify(Notice::Killing(31))));
    assert_eq!(inferior.advance(Reply::Done), Next::Ask(Request::Wait));
    assert_eq!(
        inferior.advance(Reply::Waited(WaitStatus::Signaled(SIGKILL))),
        Next::Done(Outcome::Killed)
    );

    inferior.kill();
    inferior.advance(Reply::Done);
    inferior.advance(Reply::Done);
    assert_eq!(inferior.advance(Reply::Waited(WaitStatus::Exited(0))), Next::Done(Outcome::Killed));
}

#[test]
fn kill_that_cannot_reap_is_fatal() {
    let (mut inferior, _) = Inferior::new(31, &vec![]);
    inferior.kill();
    inferior.advance(Reply::Done);
    inferior.advance(Reply::Done);
    assert_eq!(inferior.advance(Reply::Failed(10)), Next::Abort(Fatal::NotReaped));

    inferior.kill();
    inferior.advance(Reply::Done);
    inferior.advance(Reply::Done);
    inferior.advance(Reply::Waited(WaitStatus::Stopped(19)));
    assert_eq!(inferior.advance(Reply::Registers(0, 0)), Next::Abort(Fatal::NotReaped));
}

#[test]
fn kill_of_a_process_that_is_gone_does_nothing() {
    let (mut inferior, _) = Inferior::new(31, &vec![]);
    inferior.kill();
    assert_eq!(inferior.advance(Reply::Failed(ESRCH)), Next::Done(Outcome::NotKilled));
    assert_eq!(inferior.phase(), Phase::Idle);
}

#[test]
fn status_knows_what_is_terminal() {
    assert!(Status::Exited(0).terminal());
    assert!(Status::Signaled(SIGKILL).terminal());
    assert!(!Status::Stopped(SIGTRAP, 0x1000).terminal());
    assert!(Status::Stopped(SIGTRAP, 0x1000).trap_stop());
    assert!(!Status::Stopped(SIGSEGV, 0x1000).trap_stop());
    assert!(!Status::Exited(SIGTRAP).trap_stop());
    assert_eq!(SIGTRAP, 5);
}
