//! The walk up the call stack of the stopped process.
//!
//! A frame is a program counter and a frame pointer. The frame pointer
//! points at the saved frame pointer of the caller, and the return address
//! into the caller lies one word above it. The walk starts at the
//! registers and goes from frame to caller until it has reached the entry
//! function of the program. Names come from outside: whoever drives the
//! walk resolves the program counter of each frame and hands the name
//! back for the next step.

use crate::history::{peek_at, registers_at, Exchange};
use crate::inferior::Inferior;
use crate::replay::{gives, Replay};
use crate::status::TraceError;
use crate::registers::Registers;
use vstd::prelude::*;

verus! {

/// The name of the function at which a walk ends.
pub const ENTRY_FUNCTION: &'static str = "main";

/// One frame of the call stack.
#[derive(Clone, Copy, Debug, PartialEq, Eq, Structural)]
pub struct Frame {
    /// The address of the instruction that the frame will execute next.
    pub pc: usize,
    /// The frame pointer of the frame.
    pub fp: usize,
}

/// The innermost frame of a process with the registers `regs`.
pub open spec fn frame_of(regs: Registers) -> Frame {
    Frame { pc: regs.pc as usize, fp: regs.fp as usize }
}

/// Whether a function of this name, or of no known name, is the entry
/// function.
pub open spec fn is_entry(function: Option<Seq<char>>) -> bool {
    function == Some(ENTRY_FUNCTION@)
}

/// Reading the innermost frame: the registers are read.
pub open spec fn replay_current_frame(h: Seq<Exchange>, at: int) -> Option<
    Replay<Result<Frame, TraceError>>,
> {
    match registers_at(h, at) {
        None => None,
        Some(Err(e)) => Some(Replay { value: Err(TraceError::Os(e)), end: at + 1 }),
        Some(Ok(regs)) => Some(Replay { value: Ok(frame_of(regs)), end: at + 1 }),
    }
}

/// Reading the frame of the caller of `frame`: the return address is read
/// from the word above the frame pointer, then the saved frame pointer from
/// the word at the frame pointer. Nothing is read where the word above the
/// frame pointer would lie past the end of the address space.
pub open spec fn replay_caller_frame(h: Seq<Exchange>, at: int, frame: Frame) -> Option<
    Replay<Result<Frame, TraceError>>,
> {
    if frame.fp + 8 > usize::MAX {
        Some(Replay { value: Err(TraceError::AddressOverflow(frame.fp)), end: at })
    } else {
        match peek_at(h, at, (frame.fp + 8) as usize) {
            None => None,
            Some(Err(e)) => Some(Replay { value: Err(TraceError::Os(e)), end: at + 1 }),
            Some(Ok(ret)) => match peek_at(h, at + 1, frame.fp) {
                None => None,
                Some(Err(e)) => Some(Replay { value: Err(TraceError::Os(e)), end: at + 2 }),
                Some(Ok(saved)) => Some(
                    Replay { value: Ok(Frame { pc: ret as usize, fp: saved as usize }), end: at + 2 },
                ),
            },
        }
    }
}

/// One step of the walk from `frame`, whose function is `function`: the
/// walk is over and nothing is read where that is the entry function;
/// otherwise the frame of the caller is read.
pub open spec fn replay_backtrace_step(
    h: Seq<Exchange>,
    at: int,
    frame: Frame,
    function: Option<Seq<char>>,
) -> Option<Replay<Result<Option<Frame>, TraceError>>> {
    if is_entry(function) {
        Some(Replay { value: Ok(None), end: at })
    } else {
        match replay_caller_frame(h, at, frame) {
            None => None,
            Some(caller) => Some(
                Replay {
                    value: match caller.value {
                        Ok(next) => Ok(Some(next)),
                        Err(e) => Err(e),
                    },
                    end: caller.end,
                },
            ),
        }
    }
}

/// Whether `name` is the name of the entry function.
pub fn is_entry_function(name: &String) -> (entry: bool)
    ensures
        entry == is_entry(Some(name@)),
{
    let entry = ENTRY_FUNCTION.to_owned();
    *name == entry
}

impl Inferior {
    /// Reads the innermost frame of the stopped process from its registers.
    pub fn current_frame(&mut self) -> (frame: Result<Frame, TraceError>)
        requires
            old(self).wf(),
        ensures
            final(self).wf(),
            final(self)@.continues(old(self)@),
            gives(
                replay_current_frame(final(self)@.history, old(self)@.now()),
                frame,
                final(self)@.now(),
            ),
    {
        match self.registers() {
            Ok(regs) => Ok(Frame { pc: regs.pc as usize, fp: regs.fp as usize }),
            Err(e) => Err(e),
        }
    }

    /// Reads the frame of the caller of `frame` from the memory of the
    /// stopped process. A read that fails ends the operation with its
    /// error.
    pub fn caller_frame(&mut self, frame: Frame) -> (caller: Result<Frame, TraceError>)
        requires
            old(self).wf(),
        ensures
            final(self).wf(),
            final(self)@.continues(old(self)@),
            gives(
                replay_caller_frame(final(self)@.history, old(self)@.now(), frame),
                caller,
                final(self)@.now(),
            ),
    {
        if frame.fp > usize::MAX - 8 {
            return Err(TraceError::AddressOverflow(frame.fp));
        }
        let ret = match self.read_word(frame.fp + 8) {
            Ok(ret) => ret,
            Err(e) => { return Err(e); },
        };
        let saved = match self.read_word(frame.fp) {
            Ok(saved) => saved,
            Err(e) => { return Err(e); },
        };
        Ok(Frame { pc: ret as usize, fp: saved as usize })
    }

    /// Takes the walk one step on from `frame`. `function` is the name of
    /// the function that the program counter of `frame` lies in, if it is
    /// known. The walk is over, and `None` returned, where that is the
    /// entry function; otherwise the frame of the caller is read and
    /// returned. There is no other end to the walk: a chain of frames
    /// that never reaches the entry function is followed until a read
    /// fails.
    pub fn backtrace_step(&mut self, frame: Frame, function: &Option<String>) -> (next: Result<
        Option<Frame>,
        TraceError,
    >)
        requires
            old(self).wf(),
        ensures
            final(self).wf(),
            final(self)@.continues(old(self)@),
            gives(
                replay_backtrace_step(
                    final(self)@.history,
                    old(self)@.now(),
                    frame,
                    name_of(*function),
                ),
                next,
                final(self)@.now(),
            ),
    {
        let at_entry = match function {
            Some(name) => is_entry_function(name),
            None => false,
        };
        if at_entry {
            return Ok(None);
        }
        match self.caller_frame(frame) {
            Ok(next) => Ok(Some(next)),
            Err(e) => Err(e),
        }
    }
}

/// The characters of a name, if there is a name.
pub open spec fn name_of(function: Option<String>) -> Option<Seq<char>> {
    match function {
        Some(name) => Some(name@),
        None => None,
    }
}

} // verus!
