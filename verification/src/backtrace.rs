//! Stack unwinding: a walk along the saved frame pointers of the stopped
//! process, one frame per step, until the entry function is reached.
//!
//! The walker decides; the tracing layer reads registers and memory, and a
//! symbol resolver names addresses.

use vstd::prelude::*;
use vstd::string::StringExecFns;

verus! {

/// What the symbol resolver knows of one address.
pub struct Symbols {
    /// The name of the function that holds the address.
    pub function: Option<String>,
    /// The source file and the line number of the address.
    pub line: Option<(String, usize)>,
}

/// One frame of the call stack.
pub struct StackFrame {
    /// The name of the function.
    pub function: String,
    /// The source file.
    pub file: String,
    /// The line number.
    pub line: usize,
}

/// `Symbols` as plain values.
pub ghost struct Resolved {
    pub function: Option<Seq<char>>,
    pub line: Option<(Seq<char>, usize)>,
}

/// `StackFrame` as plain values.
pub ghost struct Frame {
    pub function: Seq<char>,
    pub file: Seq<char>,
    pub line: usize,
}

impl View for Symbols {
    type V = Resolved;

    open spec fn view(&self) -> Resolved {
        Resolved {
            function: match self.function {
                Some(name) => Some(name@),
                None => None,
            },
            line: match self.line {
                Some((file, number)) => Some((file@, number)),
                None => None,
            },
        }
    }
}

impl View for StackFrame {
    type V = Frame;

    open spec fn view(&self) -> Frame {
        Frame { function: self.function@, file: self.file@, line: self.line }
    }
}

/// The frame shown for an address with these symbols. What the resolver
/// does not know is shown as `unknown`, with line 0.
pub open spec fn frame_of(symbols: Resolved) -> Frame {
    Frame {
        function: match symbols.function {
            Some(name) => name,
            None => "unknown"@,
        },
        file: match symbols.line {
            Some((file, _)) => file,
            None => "unknown"@,
        },
        line: match symbols.line {
            Some((_, number)) => number,
            None => 0,
        },
    }
}

impl Frame {
    /// Whether this is the frame of the program's entry function, `main`,
    /// where every walk ends.
    pub open spec fn is_entry(self) -> bool {
        self.function == "main"@
    }
}

impl StackFrame {
    /// The frame of an address with these symbols.
    pub fn new(symbols: Symbols) -> (frame: StackFrame)
        ensures
            frame@ == frame_of(symbols@),
    {
        let Symbols { function, line } = symbols;
        let function = match function {
            Some(name) => name,
            None => String::from_str("unknown"),
        };
        match line {
            Some((file, number)) => StackFrame { function, file, line: number },
            None => StackFrame { function, file: String::from_str("unknown"), line: 0 },
        }
    }

    /// Whether this is the frame of the entry function.
    pub fn is_entry(&self) -> (entry: bool)
        ensures
            entry == self@.is_entry(),
    {
        let entry = String::from_str("main");
        self.function == entry
    }
}

/// One thing for the walker's servants to find out.
#[derive(Clone, Copy, Debug, PartialEq, Eq, Structural)]
pub enum Query {
    /// The instruction pointer and the frame base of the stopped process.
    Registers,
    /// The symbols of this address.
    Symbols(usize),
    /// The machine word at this address.
    Word(usize),
}

/// What was found out.
pub enum Answer {
    /// The instruction pointer and the frame base.
    Registers(usize, usize),
    /// The symbols of the address asked for.
    Symbols(Symbols),
    /// The word read.
    Word(u64),
    /// The registers or the word could not be read; holds the error number.
    Failed(i32),
}

/// `Answer` as plain values.
pub ghost enum Found {
    Registers(usize, usize),
    Symbols(Resolved),
    Word(u64),
    Failed(i32),
}

impl View for Answer {
    type V = Found;

    open spec fn view(&self) -> Found {
        match self {
            Answer::Registers(rip, rbp) => Found::Registers(*rip, *rbp),
            Answer::Symbols(symbols) => Found::Symbols(symbols@),
            Answer::Word(word) => Found::Word(*word),
            Answer::Failed(errno) => Found::Failed(*errno),
        }
    }
}

/// The walker's answer to what was found out.
pub enum Stride {
    /// Find this out and come back with it.
    Ask(Query),
    /// A frame of the stack, to be shown. With a query the walk goes on to
    /// the caller's frame; without one this was the frame of the entry
    /// function, and the walk is over.
    Frame(StackFrame, Option<Query>),
    /// The walk ends on an error of the tracing layer; the frames handed
    /// out before it stand.
    Failed(i32),
    /// The answer does not fit the query that was outstanding.
    Abort,
}

/// `Stride` as plain values.
pub ghost enum Stepped {
    Ask(Query),
    Frame(Frame, Option<Query>),
    Failed(i32),
    Abort,
}

impl View for Stride {
    type V = Stepped;

    open spec fn view(&self) -> Stepped {
        match self {
            Stride::Ask(query) => Stepped::Ask(*query),
            Stride::Frame(frame, next) => Stepped::Frame(frame@, *next),
            Stride::Failed(errno) => Stepped::Failed(*errno),
            Stride::Abort => Stepped::Abort,
        }
    }
}

/// Where the walk stands.
#[derive(Clone, Copy, Debug, PartialEq, Eq, Structural)]
pub enum Backtrace {
    /// `Registers` is outstanding.
    Locating,
    /// `Symbols` of this instruction pointer is outstanding; the frame base
    /// that goes with it is kept.
    Resolving(usize, usize),
    /// The saved return address, 8 bytes above this frame base, is
    /// outstanding.
    ReadingReturn(usize),
    /// The saved frame base, at this frame base, is outstanding; the return
    /// address read before it is kept.
    ReadingBase(usize, usize),
    /// The walk is over.
    Finished,
}

impl Backtrace {
    /// The transition of the walker: the state and the answer that follow
    /// `found`.
    pub open spec fn step(self, found: Found) -> (Backtrace, Stepped) {
        match self {
            Backtrace::Locating => match found {
                Found::Registers(rip, rbp) => (
                    Backtrace::Resolving(rip, rbp),
                    Stepped::Ask(Query::Symbols(rip)),
                ),
                Found::Failed(errno) => (Backtrace::Finished, Stepped::Failed(errno)),
                _ => (Backtrace::Finished, Stepped::Abort),
            },
            Backtrace::Resolving(rip, rbp) => match found {
                Found::Symbols(symbols) => if frame_of(symbols).is_entry() {
                    (Backtrace::Finished, Stepped::Frame(frame_of(symbols), None))
                } else {
                    (
                        Backtrace::ReadingReturn(rbp),
                        Stepped::Frame(frame_of(symbols), Some(Query::Word(rbp.wrapping_add(8)))),
                    )
                },
                _ => (Backtrace::Finished, Stepped::Abort),
            },
            Backtrace::ReadingReturn(rbp) => match found {
                Found::Word(word) => (
                    Backtrace::ReadingBase(word as usize, rbp),
                    Stepped::Ask(Query::Word(rbp)),
                ),
                Found::Failed(errno) => (Backtrace::Finished, Stepped::Failed(errno)),
                _ => (Backtrace::Finished, Stepped::Abort),
            },
            Backtrace::ReadingBase(rip, _) => match found {
                Found::Word(word) => (
                    Backtrace::Resolving(rip, word as usize),
                    Stepped::Ask(Query::Symbols(rip)),
                ),
                Found::Failed(errno) => (Backtrace::Finished, Stepped::Failed(errno)),
                _ => (Backtrace::Finished, Stepped::Abort),
            },
            Backtrace::Finished => (Backtrace::Finished, Stepped::Abort),
        }
    }

    /// Starts a walk: the first thing to find out is where the process
    /// stands.
    pub fn new() -> (start: (Backtrace, Query))
        ensures
            start == (Backtrace::Locating, Query::Registers),
    {
        (Backtrace::Locating, Query::Registers)
    }

    /// Takes what was found out for the outstanding query and says how the
    /// walk goes on.
    pub fn advance(&mut self, answer: Answer) -> (stride: Stride)
        ensures
            (*final(self), stride@) == old(self).step(answer@),
    {
        let (after, stride) = match *self {
            Backtrace::Locating => match answer {
                Answer::Registers(rip, rbp) => (
                    Backtrace::Resolving(rip, rbp),
                    Stride::Ask(Query::Symbols(rip)),
                ),
                Answer::Failed(errno) => (Backtrace::Finished, Stride::Failed(errno)),
                _ => (Backtrace::Finished, Stride::Abort),
            },
            Backtrace::Resolving(_, rbp) => match answer {
                Answer::Symbols(symbols) => {
                    let frame = StackFrame::new(symbols);
                    if frame.is_entry() {
                        (Backtrace::Finished, Stride::Frame(frame, None))
                    } else {
                        (
                            Backtrace::ReadingReturn(rbp),
                            Stride::Frame(frame, Some(Query::Word(rbp.wrapping_add(8)))),
                        )
                    }
                },
                _ => (Backtrace::Finished, Stride::Abort),
            },
            Backtrace::ReadingReturn(rbp) => match answer {
                Answer::Word(word) => (
                    Backtrace::ReadingBase(word as usize, rbp),
                    Stride::Ask(Query::Word(rbp)),
                ),
                Answer::Failed(errno) => (Backtrace::Finished, Stride::Failed(errno)),
                _ => (Backtrace::Finished, Stride::Abort),
            },
            Backtrace::ReadingBase(rip, _) => match answer {
                Answer::Word(word) => (
                    Backtrace::Resolving(rip, word as usize),
                    Stride::Ask(Query::Symbols(rip)),
                ),
                Answer::Failed(errno) => (Backtrace::Finished, Stride::Failed(errno)),
                _ => (Backtrace::Finished, Stride::Abort),
            },
            Backtrace::Finished => (Backtrace::Finished, Stride::Abort),
        };
        *self = after;
        stride
    }
}

} // verus!
