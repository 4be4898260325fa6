//! The orchestrator: it keeps the breakpoints that the user asked for and
//! turns each command into what is to be done with the traced process.

use crate::inferior::{Inferior, InferiorState, Phase, Waiter};
use crate::protocol::Request;
use vstd::prelude::*;
use vstd::string::{StrSliceExecFns, StringExecFns};

verus! {

/// The value of `c` as a hexadecimal digit, of either case.
pub open spec fn hex_digit(c: char) -> Option<int> {
    if '0' <= c <= '9' {
        Some(c as int - '0' as int)
    } else if 'a' <= c <= 'f' {
        Some(c as int - 'a' as int + 10)
    } else if 'A' <= c <= 'F' {
        Some(c as int - 'A' as int + 10)
    } else {
        None
    }
}

/// Whether `s` is made of hexadecimal digits alone.
pub open spec fn all_hex(s: Seq<char>) -> bool {
    forall|i: int| 0 <= i < s.len() ==> hex_digit(#[trigger] s[i]) is Some
}

/// The number that the hexadecimal digits `s` write, the first digit being
/// the most significant.
pub open spec fn hex_value(s: Seq<char>) -> int
    decreases s.len(),
{
    if s.len() == 0 {
        0
    } else {
        16 * hex_value(s.drop_last()) + hex_digit(s.last()).unwrap_or(0)
    }
}

/// Whether `s` starts with `0x` or `0X`.
pub open spec fn has_prefix(s: Seq<char>) -> bool {
    s.len() >= 2 && s[0] == '0' && (s[1] == 'x' || s[1] == 'X')
}

/// The digits of an address as the user writes it: what follows the prefix
/// and the plus sign, where they are there.
pub open spec fn digits_of(s: Seq<char>) -> Seq<char> {
    let rest = if has_prefix(s) {
        s.skip(2)
    } else {
        s
    };
    if rest.len() > 0 && rest[0] == '+' {
        rest.skip(1)
    } else {
        rest
    }
}

/// The address that `s` writes: at least one hexadecimal digit, after an
/// optional `0x` or `0X` and an optional `+`, with a value that fits in
/// `usize`. Anything else writes no address.
pub open spec fn parsed_address(s: Seq<char>) -> Option<usize> {
    let digits = digits_of(s);
    if digits.len() > 0 && all_hex(digits) && hex_value(digits) <= usize::MAX {
        Some(hex_value(digits) as usize)
    } else {
        None
    }
}

/// The value of a prefix of hexadecimal digits is at most the value of the
/// whole.
proof fn lemma_hex_value_grows(s: Seq<char>, n: int)
    requires
        0 <= n <= s.len(),
    ensures
        0 <= hex_value(s.take(n)) <= hex_value(s),
    decreases s.len(),
{
    if s.len() > 0 {
        if n == s.len() {
            assert(s.take(n) =~= s);
            lemma_hex_value_grows(s.drop_last(), n - 1);
        } else {
            lemma_hex_value_grows(s.drop_last(), n);
            assert(s.drop_last().take(n) =~= s.take(n));
        }
    }
}

/// The value of one hexadecimal digit.
fn digit_value(c: char) -> (d: Option<usize>)
    ensures
        match d {
            Some(v) => hex_digit(c) == Some(v as int) && v < 16,
            None => hex_digit(c) is None,
        },
{
    let code: u32 = c as u32;
    if 48 <= code && code <= 57 {
        Some((code - 48) as usize)
    } else if 97 <= code && code <= 102 {
        Some((code - 97 + 10) as usize)
    } else if 65 <= code && code <= 70 {
        Some((code - 65 + 10) as usize)
    } else {
        None
    }
}

/// Reads an address in hexadecimal, with or without `0x` in front.
pub fn parse_address(addr: &str) -> (address: Option<usize>)
    ensures
        address == parsed_address(addr@),
{
    let len = addr.unicode_len();
    let mut start: usize = 0;
    if len >= 2 && addr.get_char(0) == '0' {
        let second = addr.get_char(1);
        if second == 'x' || second == 'X' {
            start = 2;
        }
    }
    if start < len && addr.get_char(start) == '+' {
        start = start + 1;
    }
    let ghost digits = digits_of(addr@);
    if start == len {
        return None;
    }
    let mut value: usize = 0;
    let mut index: usize = start;
    while index < len
        invariant
            start <= index <= len,
            len == addr@.len(),
            digits == addr@.skip(start as int),
            digits == digits_of(addr@),
            all_hex(digits.take(index - start)),
            value == hex_value(digits.take(index - start)),
        decreases len - index,
    {
        let ghost seen = digits.take(index - start);
        let ghost more = digits.take(index - start + 1);
        let c = addr.get_char(index);
        proof {
            assert(more.drop_last() =~= seen);
        }
        match digit_value(c) {
            None => {
                assert(hex_digit(digits[index - start]) is None);
                return None;
            },
            Some(d) => {
                if value > (usize::MAX - d) / 16 {
                    proof {
                        if all_hex(digits) {
                            lemma_hex_value_grows(digits, index - start + 1);
                        }
                    }
                    return None;
                }
                value = 16 * value + d;
                index = index + 1;
                assert forall|i: int| 0 <= i < more.len() implies hex_digit(
                    #[trigger] more[i],
                ) is Some by {
                    if i < seen.len() {
                        assert(more[i] == seen[i]);
                    }
                }
            },
        }
    }
    assert(digits.take(index - start) =~= digits);
    Some(value)
}

/// A command of the user.
pub enum DebuggerCommand {
    /// End the session.
    Quit,
    /// Start the target with these arguments.
    Run(Vec<String>),
    /// Let the stopped target run on.
    Cont,
    /// Show the call stack of the stopped target.
    Backtrace,
    /// Break at the address written in this text.
    BreakPoint(String),
}

/// The address part of a breakpoint as typed: the text without the star
/// that may stand in front of it.
pub open spec fn unstarred(text: Seq<char>) -> Seq<char> {
    if text.len() > 0 && text[0] == '*' {
        text.skip(1)
    } else {
        text
    }
}

/// The command that the words of one line write, if they write one:
///
/// - `q` or `quit`;
/// - `r` or `run`, followed by the arguments of the target;
/// - `c`, `cont` or `continue`;
/// - `bt`, `back` or `backtrace`;
/// - `b` or `break`, followed by an address, with or without a star in
///   front. Words after the address are ignored.
pub open spec fn command_of(tokens: Seq<Seq<char>>) -> Option<Command> {
    if tokens.len() == 0 {
        None
    } else if tokens[0] == "q"@ || tokens[0] == "quit"@ {
        Some(Command::Quit)
    } else if tokens[0] == "r"@ || tokens[0] == "run"@ {
        Some(Command::Run(tokens.skip(1)))
    } else if tokens[0] == "c"@ || tokens[0] == "cont"@ || tokens[0] == "continue"@ {
        Some(Command::Cont)
    } else if tokens[0] == "bt"@ || tokens[0] == "back"@ || tokens[0] == "backtrace"@ {
        Some(Command::Backtrace)
    } else if tokens[0] == "b"@ || tokens[0] == "break"@ {
        if tokens.len() >= 2 {
            Some(Command::BreakPoint(unstarred(tokens[1])))
        } else {
            None
        }
    } else {
        None
    }
}

/// Whether two texts are the same.
fn same(a: &str, b: &str) -> (equal: bool)
    ensures
        equal == (a@ == b@),
{
    let left = String::from_str(a);
    let right = String::from_str(b);
    left == right
}

impl DebuggerCommand {
    /// Reads a command from the words of one line.
    pub fn from_tokens(tokens: &Vec<&str>) -> (command: Option<DebuggerCommand>)
        ensures
            match command {
                Some(c) => command_of(Seq::new(tokens@.len(), |i: int| tokens@[i]@)) == Some(c@),
                None => command_of(Seq::new(tokens@.len(), |i: int| tokens@[i]@)) is None,
            },
    {
        let ghost words = Seq::new(tokens@.len(), |i: int| tokens@[i]@);
        if tokens.len() == 0 {
            return None;
        }
        let first: &str = tokens[0];
        if same(first, "q") || same(first, "quit") {
            Some(DebuggerCommand::Quit)
        } else if same(first, "r") || same(first, "run") {
            let mut args: Vec<String> = Vec::new();
            let mut i: usize = 1;
            while i < tokens.len()
                invariant
                    1 <= i <= tokens.len(),
                    args@.len() == i - 1,
                    forall|j: int| 0 <= j < args@.len() ==> (#[trigger] args@[j])@ == tokens@[j + 1]@,
                decreases tokens.len() - i,
            {
                args.push(String::from_str(tokens[i]));
                i += 1;
            }
            let command = DebuggerCommand::Run(args);
            proof {
                let given = Seq::new(args@.len(), |j: int| args@[j]@);
                assert(given =~= words.skip(1));
            }
            Some(command)
        } else if same(first, "c") || same(first, "cont") || same(first, "continue") {
            Some(DebuggerCommand::Cont)
        } else if same(first, "bt") || same(first, "back") || same(first, "backtrace") {
            Some(DebuggerCommand::Backtrace)
        } else if same(first, "b") || same(first, "break") {
            if tokens.len() >= 2 {
                let text: &str = tokens[1];
                let len = text.unicode_len();
                let address = if len > 0 && text.get_char(0) == '*' {
                    text.substring_char(1, len)
                } else {
                    text
                };
                Some(DebuggerCommand::BreakPoint(String::from_str(address)))
            } else {
                None
            }
        } else {
            None
        }
    }
}

/// What is to be done for a command.
#[derive(Clone, Copy, Debug, PartialEq, Eq, Structural)]
pub enum Directive {
    /// Launch the target with all the breakpoints requested so far, after
    /// killing the process that is still held if the flag is set, and
    /// report to `launched` how the launch went.
    Launch(bool),
    /// Resume the process that is held and show the status that comes back.
    Continue,
    /// Walk the stack of the process that is held.
    Backtrace,
    /// Tell the user that no process is held.
    NoInferior,
    /// The breakpoint with this number, at this address, is kept for the
    /// launches to come.
    BreakpointSet(usize, usize),
    /// The text of the breakpoint that would have had this number writes no
    /// address: tell the user, keep nothing, and read the next command.
    BreakpointRejected(usize),
    /// Tell the user that the target could not be started.
    LaunchFailed,
    /// End the session, after killing the process that is held if the flag
    /// is set.
    Quit(bool),
}

impl Directive {
    /// Whether the session is over once this directive is carried out.
    /// Only a quit ends it: after every other directive, a rejected
    /// breakpoint and a failed launch among them, the next command is read.
    pub open spec fn is_last(self) -> bool {
        self is Quit
    }

    /// Whether the session is over once this directive is carried out.
    pub fn ends_session(&self) -> (last: bool)
        ensures
            last == self.is_last(),
    {
        match self {
            Directive::Quit(_) => true,
            _ => false,
        }
    }
}

/// The orchestrator of one debugging session.
pub struct Debugger {
    breakpoints: Vec<usize>,
    inferior: bool,
}

/// The mathematical state of the orchestrator.
pub ghost struct DebuggerState {
    /// The addresses that the user asked to break at, in the order asked.
    pub breakpoints: Seq<usize>,
    /// Whether a traced process is held.
    pub inferior: bool,
}

impl View for Debugger {
    type V = DebuggerState;

    closed spec fn view(&self) -> DebuggerState {
        DebuggerState { breakpoints: self.breakpoints@, inferior: self.inferior }
    }
}

/// `DebuggerCommand` as plain values.
pub ghost enum Command {
    Quit,
    Run(Seq<Seq<char>>),
    Cont,
    Backtrace,
    BreakPoint(Seq<char>),
}

impl View for DebuggerCommand {
    type V = Command;

    open spec fn view(&self) -> Command {
        match self {
            DebuggerCommand::Quit => Command::Quit,
            DebuggerCommand::Run(args) => Command::Run(Seq::new(args@.len(), |i: int| args@[i]@)),
            DebuggerCommand::Cont => Command::Cont,
            DebuggerCommand::Backtrace => Command::Backtrace,
            DebuggerCommand::BreakPoint(text) => Command::BreakPoint(text@),
        }
    }
}

impl DebuggerState {
    /// The state and the directive that follow `command`.
    ///
    /// A breakpoint is only kept here: it is armed by the next launch,
    /// which installs all the breakpoints kept by then, whether they were
    /// asked for before any process ran or while one was held.
    pub open spec fn run(self, command: Command) -> (DebuggerState, Directive) {
        match command {
            Command::Quit => (self, Directive::Quit(self.inferior)),
            Command::Run(_) => (self, Directive::Launch(self.inferior)),
            Command::Cont => (
                self,
                if self.inferior {
                    Directive::Continue
                } else {
                    Directive::NoInferior
                },
            ),
            Command::Backtrace => (
                self,
                if self.inferior {
                    Directive::Backtrace
                } else {
                    Directive::NoInferior
                },
            ),
            Command::BreakPoint(text) => match parsed_address(text) {
                Some(address) => (
                    DebuggerState { breakpoints: self.breakpoints.push(address), ..self },
                    Directive::BreakpointSet(self.breakpoints.len() as usize, address),
                ),
                None => (self, Directive::BreakpointRejected(self.breakpoints.len() as usize)),
            },
        }
    }

    /// The state and the directive that follow a launch: a process that was
    /// launched is held from then on and resumed at once; after a failed
    /// launch the state is as it was.
    pub open spec fn launched(self, success: bool) -> (DebuggerState, Directive) {
        if success {
            (DebuggerState { inferior: true, ..self }, Directive::Continue)
        } else {
            (self, Directive::LaunchFailed)
        }
    }
}

impl Debugger {
    /// A session with no breakpoint and no process.
    pub fn new() -> (debugger: Debugger)
        ensures
            debugger@ == (DebuggerState { breakpoints: Seq::empty(), inferior: false }),
    {
        Debugger { breakpoints: Vec::new(), inferior: false }
    }

    /// The breakpoints requested so far, which a launch installs.
    pub fn breakpoints(&self) -> (breakpoints: &Vec<usize>)
        ensures
            breakpoints@ == self@.breakpoints,
    {
        &self.breakpoints
    }

    /// Whether a traced process is held.
    pub fn has_inferior(&self) -> (held: bool)
        ensures
            held == self@.inferior,
    {
        self.inferior
    }

    /// Takes one command of the user and says what is to be done for it.
    pub fn run(&mut self, command: &DebuggerCommand) -> (directive: Directive)
        ensures
            (final(self)@, directive) == old(self)@.run(command@),
    {
        match command {
            DebuggerCommand::Quit => Directive::Quit(self.inferior),
            DebuggerCommand::Run(_) => Directive::Launch(self.inferior),
            DebuggerCommand::Cont => if self.inferior {
                Directive::Continue
            } else {
                Directive::NoInferior
            },
            DebuggerCommand::Backtrace => if self.inferior {
                Directive::Backtrace
            } else {
                Directive::NoInferior
            },
            DebuggerCommand::BreakPoint(text) => {
                let number = self.breakpoints.len();
                match parse_address(text.as_str()) {
                    Some(address) => {
                        self.breakpoints.push(address);
                        Directive::BreakpointSet(number, address)
                    },
                    None => Directive::BreakpointRejected(number),
                }
            },
        }
    }

    /// Takes control of the process `pid` that was spawned for a launch.
    /// The launch gets every breakpoint requested so far, in the order
    /// requested.
    pub fn launch(&self, pid: i32) -> (launch: (Inferior, Request))
        ensures
            launch.0@ == (InferiorState {
                pid,
                table: Map::<usize, u8>::empty(),
                pending: self@.breakpoints,
                phase: Phase::Waiting(Waiter::Launch),
            }),
            launch.1 == Request::Wait,
    {
        Inferior::new(pid, &self.breakpoints)
    }

    /// Takes the result of the launch that `run` asked for and says how to
    /// go on.
    pub fn launched(&mut self, success: bool) -> (directive: Directive)
        ensures
            (final(self)@, directive) == old(self)@.launched(success),
    {
        if success {
            self.inferior = true;
            Directive::Continue
        } else {
            Directive::LaunchFailed
        }
    }
}

/// The session ends on the command to quit and on no other: a breakpoint
/// whose text writes no address is rejected, leaves the requests and the
/// process that is held as they are, and is followed by the next command.
/// The process that is held is killed before the session ends and before
/// another launch takes its place.
pub proof fn law_session_goes_on(state: DebuggerState, command: Command, success: bool)
    ensures
        state.run(command).1.is_last() <==> command is Quit,
        !state.launched(success).1.is_last(),
        command is Quit ==> state.run(command).1 == Directive::Quit(state.inferior),
        command is Run ==> state.run(command).1 == Directive::Launch(state.inferior),
        command matches Command::BreakPoint(text) && parsed_address(text) is None ==> state.run(
            command,
        ) == (state, Directive::BreakpointRejected(state.breakpoints.len() as usize)),
{
}

/// No command takes a requested breakpoint away or changes the order of
/// the requests, and no command but the report of a launch changes whether
/// a process is held: what was asked for before a process ran, or while
/// one was held, is there for every launch to come.
pub proof fn law_requests_are_kept(state: DebuggerState, command: Command, success: bool)
    ensures
        state.breakpoints.is_prefix_of(state.run(command).0.breakpoints),
        state.run(command).0.inferior == state.inferior,
        state.launched(success).0.breakpoints == state.breakpoints,
        state.launched(success).0.inferior == (state.inferior || success),
{
}

} // verus!
