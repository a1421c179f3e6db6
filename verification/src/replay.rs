//! The operations of the controller, replayed over a history.
//!
//! Each function here takes a history and a position in it and follows one
//! operation from that position on: it checks that the history holds the
//! requests that the operation makes, with the arguments it makes them
//! with, and reads from the recorded answers what the operation returns and
//! where it ends. It gives nothing where the history holds anything else.
//! The executable operations promise that the history they leave replays to
//! the value they return.

use crate::breakpoint::{breakpoint_hit, recorded};
use crate::history::{
    kill_at, peek_at, poke_at, registers_at, resume_at, set_registers_at, step_at, wait_at,
    Exchange,
};
use crate::status::{
    event_of, Killed, StartError, State, Status, TraceError, WaitMode, WaitOutcome, SIGTRAP,
};
use crate::registers::Registers;
use crate::word::{byte_index, byte_of, with_byte, word_base, TRAP_OPCODE};
use nix::Error;
use vstd::prelude::*;

verus! {

/// What replaying an operation that leaves the state of the process alone
/// gives: the value that the operation returns, and the position in the
/// history just past its last request.
pub struct Replay<T> {
    pub value: T,
    pub end: int,
}

/// What replaying an operation that may move the process to another state
/// gives: the value that the operation returns, the state it leaves, and the
/// position in the history just past its last request.
pub struct Run<T> {
    pub value: T,
    pub state: State,
    pub end: int,
}

/// The replay `replay` exists, returns `value` and ends at `end`.
pub open spec fn gives<T>(replay: Option<Replay<T>>, value: T, end: int) -> bool {
    replay == Some(Replay { value, end })
}

/// The run `run` exists, returns `value`, leaves `state` and ends at `end`.
pub open spec fn leaves<T>(run: Option<Run<T>>, value: T, state: State, end: int) -> bool {
    run == Some(Run { value, state, end })
}

/// An answer of the operating system as the result of an operation.
pub open spec fn lift<T>(answer: Result<T, Error>) -> Result<T, TraceError> {
    match answer {
        Ok(value) => Ok(value),
        Err(e) => Err(TraceError::Os(e)),
    }
}

/// Reading the registers: one request.
pub open spec fn replay_registers(h: Seq<Exchange>, at: int) -> Option<
    Replay<Result<Registers, TraceError>>,
> {
    match registers_at(h, at) {
        Some(answer) => Some(Replay { value: lift(answer), end: at + 1 }),
        None => None,
    }
}

/// Reading the word at `addr`: one request.
pub open spec fn replay_read_word(h: Seq<Exchange>, at: int, addr: usize) -> Option<
    Replay<Result<u64, TraceError>>,
> {
    match peek_at(h, at, addr) {
        Some(answer) => Some(Replay { value: lift(answer), end: at + 1 }),
        None => None,
    }
}

/// Storing `word` at `addr`: one request.
pub open spec fn replay_write_word(h: Seq<Exchange>, at: int, addr: usize, word: u64) -> Option<
    Replay<Result<(), TraceError>>,
> {
    match poke_at(h, at, addr, word) {
        Some(answer) => Some(Replay { value: lift(answer), end: at + 1 }),
        None => None,
    }
}

/// Replacing the byte at `addr` by `val`: the word around `addr` is read;
/// if that succeeds, the same word with the one byte replaced is stored at
/// the same place. The operation returns the byte that the word read had at
/// `addr`.
pub open spec fn replay_patch(h: Seq<Exchange>, at: int, addr: usize, val: u8) -> Option<
    Replay<Result<u8, TraceError>>,
> {
    let base = word_base(addr);
    let k = byte_index(addr);
    match peek_at(h, at, base) {
        None => None,
        Some(Err(e)) => Some(Replay { value: Err(TraceError::Os(e)), end: at + 1 }),
        Some(Ok(word)) => match poke_at(h, at + 1, base, with_byte(word, k, val)) {
            None => None,
            Some(Err(e)) => Some(Replay { value: Err(TraceError::Os(e)), end: at + 2 }),
            Some(Ok(_)) => Some(Replay { value: Ok(byte_of(word, k)), end: at + 2 }),
        },
    }
}

/// What installing a breakpoint at `addr` gives: the result, and the table
/// it leaves.
pub struct Installed {
    pub result: Result<(), TraceError>,
    pub table: Map<usize, u8>,
}

/// Installing a breakpoint at `addr`: nothing is asked where the table
/// already has the address. Otherwise the byte at `addr` is replaced by the
/// trap opcode, and the byte that stood there is recorded; where the
/// replacement fails the table stays as it is.
pub open spec fn replay_install(h: Seq<Exchange>, at: int, table: Map<usize, u8>, addr: usize)
    -> Option<Replay<Installed>> {
    if table.contains_key(addr) {
        Some(Replay { value: Installed { result: Ok(()), table }, end: at })
    } else {
        match replay_patch(h, at, addr, TRAP_OPCODE) {
            None => None,
            Some(patch) => Some(
                Replay {
                    value: match patch.value {
                        Ok(orig) => Installed { result: Ok(()), table: recorded(table, addr, orig) },
                        Err(e) => Installed { result: Err(e), table },
                    },
                    end: patch.end,
                },
            ),
        }
    }
}

/// Putting the original byte back at the breakpoint `addr`: nothing is
/// asked where the table has no such breakpoint.
pub open spec fn replay_restore(h: Seq<Exchange>, at: int, table: Map<usize, u8>, addr: usize)
    -> Option<Replay<Result<(), TraceError>>> {
    if !table.contains_key(addr) {
        Some(Replay { value: Err(TraceError::UnknownBreakpoint(addr)), end: at })
    } else {
        match replay_patch(h, at, addr, table[addr]) {
            None => None,
            Some(patch) => Some(
                Replay {
                    value: match patch.value {
                        Ok(_) => Ok(()),
                        Err(e) => Err(e),
                    },
                    end: patch.end,
                },
            ),
        }
    }
}

/// Waiting for the next event, in a process that stands in `state`.
///
/// A process that is gone is not waited for: its last event is reported
/// again. Otherwise one wait is made. An exit or an end by a signal is
/// reported as it is and ends the life of the process. For a stop on a
/// signal the registers are read, and the stop is reported with the program
/// counter they hold. Any other answer is the fatal error.
pub open spec fn replay_wait(h: Seq<Exchange>, at: int, state: State, mode: WaitMode) -> Option<
    Run<Result<Status, TraceError>>,
> {
    match state.last_event() {
        Some(event) => Some(Run { value: Ok(event), state, end: at }),
        None => match wait_at(h, at, mode) {
            None => None,
            Some(Err(e)) => Some(Run { value: Err(TraceError::Os(e)), state, end: at + 1 }),
            Some(Ok(WaitOutcome::Stopped(signal))) => match registers_at(h, at + 1) {
                None => None,
                Some(Err(e)) => Some(
                    Run { value: Err(TraceError::Os(e)), state: State::StoppedOther, end: at + 2 },
                ),
                Some(Ok(regs)) => Some(
                    Run {
                        value: Ok(Status::Stopped(signal, regs.pc as usize)),
                        state: State::StoppedOther,
                        end: at + 2,
                    },
                ),
            },
            Some(Ok(outcome)) => match event_of(outcome, 0) {
                Some(event) => Some(Run { value: Ok(event), state: State::after(event), end: at + 1 }),
                None => Some(
                    Run {
                        value: Err(TraceError::UnexpectedWaitStatus(outcome)),
                        state,
                        end: at + 1,
                    },
                ),
            },
        },
    }
}

/// Attributing a trap to its breakpoint: where the run ends in an event
/// that reports the trap of a breakpoint, the process is halted at that
/// breakpoint, and the event is reported with the address of the
/// breakpoint, not the address one byte past it.
pub open spec fn settle(table: Map<usize, u8>, run: Run<Result<Status, TraceError>>) -> Run<
    Result<Status, TraceError>,
> {
    match run.value {
        Ok(event) => match breakpoint_hit(table, event) {
            Some(bp) => Run {
                value: Ok(Status::Stopped(SIGTRAP, bp)),
                state: State::StoppedAtBreakpoint(bp),
                end: run.end,
            },
            None => run,
        },
        Err(_) => run,
    }
}

/// Resuming the process and waiting for its next event. The event is
/// returned unchanged unless it reports the trap of a breakpoint.
pub open spec fn replay_resume(h: Seq<Exchange>, at: int, table: Map<usize, u8>, state: State)
    -> Option<Run<Result<Status, TraceError>>> {
    match resume_at(h, at) {
        None => None,
        Some(Err(e)) => Some(Run { value: Err(TraceError::Os(e)), state, end: at + 1 }),
        Some(Ok(_)) => match replay_wait(h, at + 1, State::Running, WaitMode::Blocking) {
            None => None,
            Some(run) => Some(settle(table, run)),
        },
    }
}

/// Moving the program counter to `pc`: the registers are read and, if that
/// succeeds, written back with the program counter replaced.
pub open spec fn replay_set_pc(h: Seq<Exchange>, at: int, pc: usize) -> Option<
    Replay<Result<(), TraceError>>,
> {
    match registers_at(h, at) {
        None => None,
        Some(Err(e)) => Some(Replay { value: Err(TraceError::Os(e)), end: at + 1 }),
        Some(Ok(regs)) => match set_registers_at(h, at + 1, regs.moved_to(pc)) {
            None => None,
            Some(answer) => Some(Replay { value: lift(answer), end: at + 2 }),
        },
    }
}

/// Stepping over the breakpoint at `bp`, where the process is halted by
/// its trap.
///
/// Nothing is asked where the table has no breakpoint at `bp`. Otherwise,
/// in this order and up to the first failure: the program counter is moved
/// back to `bp`; the original byte is put back at `bp`; one instruction is
/// executed and its stop waited for; if the process is still alive, the
/// trap opcode is written at `bp` again; and if that stop was the trap of
/// the single step, the process is resumed and its next event returned. A
/// process that exited or was ended during the step, or that stopped on
/// another signal, has that event returned.
pub open spec fn replay_step_over(
    h: Seq<Exchange>,
    at: int,
    table: Map<usize, u8>,
    state: State,
    bp: usize,
) -> Option<Run<Result<Status, TraceError>>> {
    if !table.contains_key(bp) {
        Some(Run { value: Err(TraceError::UnknownBreakpoint(bp)), state, end: at })
    } else {
        match replay_set_pc(h, at, bp) {
            None => None,
            Some(Replay { value: Err(e), end }) => Some(Run { value: Err(e), state, end }),
            Some(Replay { value: Ok(_), end: rewound }) => match replay_patch(
                h,
                rewound,
                bp,
                table[bp],
            ) {
                None => None,
                Some(Replay { value: Err(e), end }) => Some(Run { value: Err(e), state, end }),
                Some(Replay { value: Ok(_), end: restored }) => match step_at(h, restored) {
                    None => None,
                    Some(Err(e)) => Some(
                        Run { value: Err(TraceError::Os(e)), state, end: restored + 1 },
                    ),
                    Some(Ok(_)) => match replay_wait(
                        h,
                        restored + 1,
                        State::Running,
                        WaitMode::Blocking,
                    ) {
                        None => None,
                        Some(stepped) => replay_rearm(h, table, bp, stepped),
                    },
                },
            },
        }
    }
}

/// The end of a step over the breakpoint at `bp`, after the wait that
/// followed the single step has gone as `stepped` says.
pub open spec fn replay_rearm(
    h: Seq<Exchange>,
    table: Map<usize, u8>,
    bp: usize,
    stepped: Run<Result<Status, TraceError>>,
) -> Option<Run<Result<Status, TraceError>>> {
    match stepped.value {
        Ok(Status::Stopped(signal, _)) => match replay_patch(h, stepped.end, bp, TRAP_OPCODE) {
            None => None,
            Some(Replay { value: Err(e), end }) => Some(
                Run { value: Err(e), state: stepped.state, end },
            ),
            Some(Replay { value: Ok(_), end: armed }) => if signal == SIGTRAP {
                replay_resume(h, armed, table, stepped.state)
            } else {
                Some(Run { value: stepped.value, state: stepped.state, end: armed })
            },
        },
        _ => Some(stepped),
    }
}

/// Continuing the process, which stands in `state`.
///
/// A process that is gone has its last event reported again, and nothing
/// is asked. A process halted at a breakpoint is first stepped over that
/// breakpoint. Any other process is resumed and its next event waited for.
pub open spec fn replay_continue(h: Seq<Exchange>, at: int, table: Map<usize, u8>, state: State)
    -> Option<Run<Result<Status, TraceError>>> {
    match state {
        State::Exited(code) => Some(Run { value: Ok(Status::Exited(code)), state, end: at }),
        State::Signaled(signal) => Some(Run { value: Ok(Status::Signaled(signal)), state, end: at }),
        State::StoppedAtBreakpoint(bp) => replay_step_over(h, at, table, state, bp),
        _ => replay_resume(h, at, table, state),
    }
}

/// Ending the process, which stands in `state`.
///
/// A process that is gone is sent nothing. Any other process is sent the
/// kill signal and, whatever the answer, waited for once.
pub open spec fn replay_kill(h: Seq<Exchange>, at: int, state: State) -> Option<Run<Killed>> {
    match state.last_event() {
        Some(event) => Some(Run { value: Killed { signal: None, reaped: Ok(event) }, state, end: at }),
        None => match kill_at(h, at) {
            None => None,
            Some(answer) => match replay_wait(h, at + 1, state, WaitMode::Blocking) {
                None => None,
                Some(run) => Some(
                    Run {
                        value: Killed { signal: Some(lift(answer)), reaped: run.value },
                        state: run.state,
                        end: run.end,
                    },
                ),
            },
        },
    }
}

/// Installing breakpoints at the addresses `addrs`, one after the other.
/// The replay gives the table that is left and the result of each
/// installation, in the order of the addresses. A failed installation does
/// not keep the later ones from being tried.
pub open spec fn replay_installs(
    h: Seq<Exchange>,
    at: int,
    table: Map<usize, u8>,
    addrs: Seq<usize>,
) -> Option<Replay<(Map<usize, u8>, Seq<Result<(), TraceError>>)>>
    decreases addrs.len(),
{
    if addrs.len() == 0 {
        Some(Replay { value: (table, Seq::empty()), end: at })
    } else {
        match replay_installs(h, at, table, addrs.drop_last()) {
            None => None,
            Some(before) => match replay_install(h, before.end, before.value.0, addrs.last()) {
                None => None,
                Some(last) => Some(
                    Replay {
                        value: (last.value.table, before.value.1.push(last.value.result)),
                        end: last.end,
                    },
                ),
            },
        }
    }
}

/// Taking a process under control that was spawned to be traced and has
/// not been waited for: the process is waited for, and if it has stopped,
/// breakpoints are installed at `addrs`. The replay gives the table that
/// is left and the result of each installation.
pub open spec fn replay_start(h: Seq<Exchange>, addrs: Seq<usize>) -> Option<
    Run<Result<(Map<usize, u8>, Seq<Result<(), TraceError>>), StartError>>,
> {
    match replay_wait(h, 0, State::Running, WaitMode::Blocking) {
        None => None,
        Some(Run { value: Err(e), state, end }) => Some(
            Run { value: Err(StartError::Wait(e)), state, end },
        ),
        Some(Run { value: Ok(Status::Stopped(_, _)), state, end }) => match replay_installs(
            h,
            end,
            Map::empty(),
            addrs,
        ) {
            None => None,
            Some(installs) => Some(Run { value: Ok(installs.value), state, end: installs.end }),
        },
        Some(Run { value: Ok(event), state, end }) => Some(
            Run { value: Err(StartError::NotStopped(event)), state, end },
        ),
    }
}

/// A row of installations gives one result for each address, and ends no
/// earlier than it starts.
pub proof fn lemma_installs_len(
    h: Seq<Exchange>,
    at: int,
    table: Map<usize, u8>,
    addrs: Seq<usize>,
)
    requires
        replay_installs(h, at, table, addrs) is Some,
    ensures
        replay_installs(h, at, table, addrs)->0.value.1.len() == addrs.len(),
        replay_installs(h, at, table, addrs)->0.end >= at,
    decreases addrs.len(),
{
    if addrs.len() > 0 {
        lemma_installs_len(h, at, table, addrs.drop_last());
    }
}

/// In a history and in any history that continues it, the same exchange
/// stands at each position of the shorter one.
pub proof fn lemma_prefix_index(h: Seq<Exchange>, longer: Seq<Exchange>, i: int)
    requires
        h.is_prefix_of(longer),
        0 <= i < h.len(),
    ensures
        longer[i] == h[i],
{
    assert(h[i] == longer.subrange(0, h.len() as int)[i]);
}

/// A replacement of a byte that a history replays is replayed alike by every
/// history that continues it.
pub proof fn lemma_patch_stable(
    h: Seq<Exchange>,
    longer: Seq<Exchange>,
    at: int,
    addr: usize,
    val: u8,
)
    requires
        h.is_prefix_of(longer),
        replay_patch(h, at, addr, val) is Some,
    ensures
        replay_patch(longer, at, addr, val) == replay_patch(h, at, addr, val),
{
    lemma_prefix_index(h, longer, at);
    if at + 1 < h.len() {
        lemma_prefix_index(h, longer, at + 1);
    }
}

/// An installation that a history replays is replayed alike by every
/// history that continues it.
pub proof fn lemma_install_stable(
    h: Seq<Exchange>,
    longer: Seq<Exchange>,
    at: int,
    table: Map<usize, u8>,
    addr: usize,
)
    requires
        h.is_prefix_of(longer),
        replay_install(h, at, table, addr) is Some,
    ensures
        replay_install(longer, at, table, addr) == replay_install(h, at, table, addr),
{
    if !table.contains_key(addr) {
        lemma_patch_stable(h, longer, at, addr, TRAP_OPCODE);
    }
}

/// A row of installations that a history replays is replayed alike by
/// every history that continues it.
pub proof fn lemma_installs_stable(
    h: Seq<Exchange>,
    longer: Seq<Exchange>,
    at: int,
    table: Map<usize, u8>,
    addrs: Seq<usize>,
)
    requires
        h.is_prefix_of(longer),
        replay_installs(h, at, table, addrs) is Some,
    ensures
        replay_installs(longer, at, table, addrs) == replay_installs(h, at, table, addrs),
    decreases addrs.len(),
{
    if addrs.len() > 0 {
        lemma_installs_stable(h, longer, at, table, addrs.drop_last());
        let before = replay_installs(h, at, table, addrs.drop_last())->0;
        lemma_install_stable(h, longer, before.end, before.value.0, addrs.last());
    }
}

} // verus!
