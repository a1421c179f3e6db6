//! What a traced process is reported to be doing.
//!
//! The operating system answers a wait with one of several categories. Three
//! of them are events that a controller reports: the process stopped on a
//! signal, it exited, or a signal ended it. Every other category is outside
//! what this controller handles and is a fatal condition.

use vstd::prelude::*;

verus! {

/// The number of the trap signal, which a breakpoint or a single step raises.
pub const SIGTRAP: i32 = 5;

/// The number of the signal that ends a process unconditionally.
pub const SIGKILL: i32 = 9;

/// A stop event, as reported to the caller of a wait or a continuation.
#[derive(Clone, Copy, Debug, PartialEq, Eq, Structural)]
pub enum Status {
    /// The process is alive and halted. Holds the number of the signal that
    /// stopped it and the program counter at which it is stopped.
    Stopped(i32, usize),
    /// The process exited normally. Holds the exit code.
    Exited(i32),
    /// A signal ended the process. Holds the number of that signal.
    Signaled(i32),
}

/// Whether a wait blocks until the process changes state.
#[derive(Clone, Copy, Debug, PartialEq, Eq, Structural)]
pub enum WaitMode {
    /// Wait until there is a change to report.
    Blocking,
    /// Return at once, also when there is nothing to report.
    NonBlocking,
}

/// The answer of the operating system to a wait, by category.
#[derive(Clone, Copy, Debug, PartialEq, Eq, Structural)]
pub enum WaitOutcome {
    /// The process exited with this code.
    Exited(i32),
    /// The signal with this number ended the process; the flag tells whether
    /// it left a core dump.
    Signaled(i32, bool),
    /// The signal with this number stopped the process.
    Stopped(i32),
    /// A trace event stopped the process: the signal's number and the event.
    PtraceEvent(i32, i32),
    /// The process stopped at a system call.
    PtraceSyscall,
    /// The process was resumed by a continue signal.
    Continued,
    /// There is no change to report.
    StillAlive,
}

/// Where the traced process stands in its life, as far as the controller has
/// been told.
#[derive(Clone, Copy, Debug, PartialEq, Eq, Structural)]
pub enum State {
    /// Resumed, and no stop has been observed since.
    Running,
    /// Halted by the trap of the breakpoint at this address.
    StoppedAtBreakpoint(usize),
    /// Halted for any other reason.
    StoppedOther,
    /// Exited with this code; the process is gone.
    Exited(i32),
    /// Ended by the signal with this number; the process is gone.
    Signaled(i32),
}

/// Why an operation on the traced process did not succeed.
#[derive(Clone, Copy, Debug, PartialEq, Eq)]
pub enum TraceError {
    /// The operating system refused a request.
    Os(nix::Error),
    /// A wait was answered with a category that is neither a stop on a
    /// signal, nor an exit, nor an end by a signal. The controller cannot go
    /// on: callers treat this as fatal.
    UnexpectedWaitStatus(WaitOutcome),
    /// There is no breakpoint at this address.
    UnknownBreakpoint(usize),
    /// A word above this address was asked for, and its address does not fit
    /// the address space.
    AddressOverflow(usize),
}

/// Why a process could not be taken under control.
#[derive(Clone, Copy, Debug, PartialEq, Eq)]
pub enum StartError {
    /// The first wait failed.
    Wait(TraceError),
    /// The first wait reported this event, which is not a stop.
    NotStopped(Status),
}

/// What an attempt to end the process came to.
#[derive(Clone, Copy, Debug, PartialEq, Eq)]
pub struct Killed {
    /// The answer to the kill signal; nothing where the process was gone
    /// already and no signal was sent.
    pub signal: Option<Result<(), TraceError>>,
    /// The event that the wait after the signal reported, or the last
    /// event of a process that was gone already.
    pub reaped: Result<Status, TraceError>,
}

impl Status {
    /// Whether the event ends the life of the process.
    pub open spec fn is_terminal(self) -> bool {
        self is Exited || self is Signaled
    }
}

impl State {
    /// Whether the process is gone.
    pub open spec fn is_terminal(self) -> bool {
        self is Exited || self is Signaled
    }

    /// The state that a reported event leaves the process in, before a trap
    /// is attributed to a breakpoint.
    pub open spec fn after(event: Status) -> State {
        match event {
            Status::Stopped(_, _) => State::StoppedOther,
            Status::Exited(code) => State::Exited(code),
            Status::Signaled(signal) => State::Signaled(signal),
        }
    }

    /// The event by which a process that is gone went, if it is gone.
    pub open spec fn last_event(self) -> Option<Status> {
        match self {
            State::Exited(code) => Some(Status::Exited(code)),
            State::Signaled(signal) => Some(Status::Signaled(signal)),
            _ => None,
        }
    }

    /// The state that the reported event `event` leaves the process in,
    /// before a trap is attributed to a breakpoint.
    pub fn settled(event: Status) -> (state: State)
        ensures
            state == State::after(event),
    {
        match event {
            Status::Stopped(_, _) => State::StoppedOther,
            Status::Exited(code) => State::Exited(code),
            Status::Signaled(signal) => State::Signaled(signal),
        }
    }

    /// The event by which the process went, if it is gone.
    pub fn termination(&self) -> (event: Option<Status>)
        ensures
            event == self.last_event(),
    {
        match self {
            State::Exited(code) => Some(Status::Exited(*code)),
            State::Signaled(signal) => Some(Status::Signaled(*signal)),
            _ => None,
        }
    }
}

/// The event that an answer to a wait stands for, where `pc` is the program
/// counter of the process if it stopped. Answers outside the three reported
/// categories stand for no event.
pub open spec fn event_of(outcome: WaitOutcome, pc: usize) -> Option<Status> {
    match outcome {
        WaitOutcome::Exited(code) => Some(Status::Exited(code)),
        WaitOutcome::Signaled(signal, _) => Some(Status::Signaled(signal)),
        WaitOutcome::Stopped(signal) => Some(Status::Stopped(signal, pc)),
        _ => None,
    }
}

/// Turns an answer to a wait into the event to report. `pc` is the program
/// counter to report if the process stopped; it is not looked at otherwise.
/// An answer outside the three reported categories is the fatal error.
pub fn translate(outcome: WaitOutcome, pc: usize) -> (event: Result<Status, TraceError>)
    ensures
        event == (match event_of(outcome, pc) {
            Some(status) => Ok::<Status, TraceError>(status),
            None => Err(TraceError::UnexpectedWaitStatus(outcome)),
        }),
{
    match outcome {
        WaitOutcome::Exited(code) => Ok(Status::Exited(code)),
        WaitOutcome::Signaled(signal, _) => Ok(Status::Signaled(signal)),
        WaitOutcome::Stopped(signal) => Ok(Status::Stopped(signal, pc)),
        _ => Err(TraceError::UnexpectedWaitStatus(outcome)),
    }
}

} // verus!
