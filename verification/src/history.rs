//! The history of a traced process: every request that the controller made
//! of the operating system, in order, each with the answer it got.
//!
//! The history exists for the contracts only. An operation of the
//! controller is described by replaying it over the history: from a given
//! position the history must hold exactly the requests that the operation
//! makes, and the answers recorded with them decide how the operation goes
//! on and what it returns.

use crate::status::{WaitMode, WaitOutcome};
use crate::registers::Registers;
use nix::Error;
use vstd::prelude::*;

verus! {

/// One request made of the operating system, and its answer.
#[allow(inconsistent_fields)]
pub enum Exchange {
    /// The stopped process was asked to run on.
    Resume { answer: Result<(), Error> },
    /// The stopped process was asked to execute one instruction.
    Step { answer: Result<(), Error> },
    /// A change of state of the process was waited for.
    Wait { mode: WaitMode, answer: Result<WaitOutcome, Error> },
    /// The registers of the process were asked for.
    ReadRegisters { answer: Result<Registers, Error> },
    /// The registers of the process were set to `registers`.
    WriteRegisters { registers: Registers, answer: Result<(), Error> },
    /// The word at `addr` in the memory of the process was asked for.
    Peek { addr: usize, answer: Result<u64, Error> },
    /// `word` was stored at `addr` in the memory of the process.
    Poke { addr: usize, word: u64, answer: Result<(), Error> },
    /// The process was sent the kill signal.
    Kill { answer: Result<(), Error> },
}

/// The answer recorded at position `at`, if the request there asked the
/// process to run on.
pub open spec fn resume_at(h: Seq<Exchange>, at: int) -> Option<Result<(), Error>> {
    if 0 <= at < h.len() {
        match h[at] {
            Exchange::Resume { answer } => Some(answer),
            _ => None,
        }
    } else {
        None
    }
}

/// The answer recorded at position `at`, if the request there asked for a
/// single step.
pub open spec fn step_at(h: Seq<Exchange>, at: int) -> Option<Result<(), Error>> {
    if 0 <= at < h.len() {
        match h[at] {
            Exchange::Step { answer } => Some(answer),
            _ => None,
        }
    } else {
        None
    }
}

/// The answer recorded at position `at`, if the request there was a wait in
/// the mode `mode`.
pub open spec fn wait_at(h: Seq<Exchange>, at: int, mode: WaitMode) -> Option<
    Result<WaitOutcome, Error>,
> {
    if 0 <= at < h.len() {
        match h[at] {
            Exchange::Wait { mode: m, answer } => if m == mode {
                Some(answer)
            } else {
                None
            },
            _ => None,
        }
    } else {
        None
    }
}

/// The answer recorded at position `at`, if the request there asked for the
/// registers.
pub open spec fn registers_at(h: Seq<Exchange>, at: int) -> Option<Result<Registers, Error>> {
    if 0 <= at < h.len() {
        match h[at] {
            Exchange::ReadRegisters { answer } => Some(answer),
            _ => None,
        }
    } else {
        None
    }
}

/// The answer recorded at position `at`, if the request there set the
/// registers to `registers`.
pub open spec fn set_registers_at(h: Seq<Exchange>, at: int, registers: Registers) -> Option<
    Result<(), Error>,
> {
    if 0 <= at < h.len() {
        match h[at] {
            Exchange::WriteRegisters { registers: r, answer } => if r == registers {
                Some(answer)
            } else {
                None
            },
            _ => None,
        }
    } else {
        None
    }
}

/// The answer recorded at position `at`, if the request there asked for the
/// word at `addr`.
pub open spec fn peek_at(h: Seq<Exchange>, at: int, addr: usize) -> Option<Result<u64, Error>> {
    if 0 <= at < h.len() {
        match h[at] {
            Exchange::Peek { addr: a, answer } => if a == addr {
                Some(answer)
            } else {
                None
            },
            _ => None,
        }
    } else {
        None
    }
}

/// The answer recorded at position `at`, if the request there stored `word`
/// at `addr`.
pub open spec fn poke_at(h: Seq<Exchange>, at: int, addr: usize, word: u64) -> Option<
    Result<(), Error>,
> {
    if 0 <= at < h.len() {
        match h[at] {
            Exchange::Poke { addr: a, word: w, answer } => if a == addr && w == word {
                Some(answer)
            } else {
                None
            },
            _ => None,
        }
    } else {
        None
    }
}

/// The answer recorded at position `at`, if the request there sent the kill
/// signal.
pub open spec fn kill_at(h: Seq<Exchange>, at: int) -> Option<Result<(), Error>> {
    if 0 <= at < h.len() {
        match h[at] {
            Exchange::Kill { answer } => Some(answer),
            _ => None,
        }
    } else {
        None
    }
}

} // verus!
