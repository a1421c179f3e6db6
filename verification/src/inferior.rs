//! The controller of one traced process.
//!
//! An `Inferior` owns the process: it alone makes requests of the operating
//! system about it, one at a time, and each request blocks until it is
//! answered. The contracts of its operations speak of the history of those
//! requests. An operation promises that the requests it has added to the
//! history are exactly those that its replay makes, and that it returns
//! what the replay reads from the answers.

use crate::breakpoint::{Breakpoint, BreakpointTable};
use crate::history::Exchange;
use crate::replay::{
    gives, leaves, lemma_installs_len, lemma_installs_stable, lemma_prefix_index, lift,
    replay_continue,
    replay_install, replay_installs, replay_kill, replay_patch, replay_read_word,
    replay_registers, replay_restore, replay_resume, replay_set_pc, replay_start,
    replay_step_over, replay_wait, replay_write_word, Installed,
};
use crate::status::{
    translate, Killed, StartError, State, Status, TraceError, WaitMode, WaitOutcome, SIGTRAP,
};
use crate::registers::Registers;
use crate::sys;
use crate::word::{align_addr_to_word, byte_offset, extract_byte, replace_byte, TRAP_OPCODE};
use nix::unistd::Pid;
use nix::Error;
use vstd::prelude::*;

verus! {

/// A process under trace control, with the breakpoints installed in it.
pub struct Inferior {
    pid: Pid,
    breakpoints: BreakpointTable,
    state: State,
    history: Ghost<Seq<Exchange>>,
}

/// A controller as the contracts see it.
pub struct InferiorView {
    /// The identifier of the traced process.
    pub pid: Pid,
    /// The original byte of each address that has a breakpoint.
    pub table: Map<usize, u8>,
    /// Where the process stands in its life.
    pub state: State,
    /// Every request made of the operating system so far, with its answer.
    pub history: Seq<Exchange>,
}

impl InferiorView {
    /// A process halted at a breakpoint is halted at one that is installed.
    pub open spec fn wf(self) -> bool {
        self.state matches State::StoppedAtBreakpoint(bp) ==> self.table.contains_key(bp)
    }

    /// The position in the history where the next request will stand.
    pub open spec fn now(self) -> int {
        self.history.len() as int
    }

    /// `self` is what `before` has become through requests that leave the
    /// process in its state: the same process with the same breakpoints in
    /// the same state, and a history that continues the one of `before`.
    pub open spec fn continues(self, before: InferiorView) -> bool {
        &&& self.pid == before.pid
        &&& self.table == before.table
        &&& self.state == before.state
        &&& before.history.is_prefix_of(self.history)
    }

    /// `self` is what `before` has become through an operation that may move
    /// the process to another state: the same process with the same
    /// breakpoints, and a history that continues the one of `before`.
    pub open spec fn follows(self, before: InferiorView) -> bool {
        &&& self.pid == before.pid
        &&& self.table == before.table
        &&& before.history.is_prefix_of(self.history)
    }

    /// `self` after one more request, `asked`, that leaves the state alone.
    pub open spec fn asked(self, asked: Exchange) -> InferiorView {
        InferiorView {
            pid: self.pid,
            table: self.table,
            state: self.state,
            history: self.history.push(asked),
        }
    }
}

impl View for Inferior {
    type V = InferiorView;

    closed spec fn view(&self) -> InferiorView {
        InferiorView {
            pid: self.pid,
            table: self.breakpoints@,
            state: self.state,
            history: self.history@,
        }
    }
}

/// A process taken under control.
pub struct Started {
    /// The controller of the process, which is stopped.
    pub inferior: Inferior,
    /// The result of installing each of the breakpoints asked for, in the
    /// order in which they were asked for.
    pub installs: Vec<Result<(), TraceError>>,
}

/// A process that could not be taken under control.
pub struct StartFailure {
    /// The controller of the process, which tells in what state the process
    /// was left.
    pub inferior: Inferior,
    /// Why the start failed.
    pub error: StartError,
}

/// An answer of the operating system as the result of an operation.
fn lifted<T>(answer: Result<T, Error>) -> (result: Result<T, TraceError>)
    ensures
        result == lift(answer),
{
    match answer {
        Ok(value) => Ok(value),
        Err(e) => Err(TraceError::Os(e)),
    }
}

impl Inferior {
    /// The table is in order, and so is the view.
    pub closed spec fn wf(&self) -> bool {
        self.breakpoints.wf() && self@.wf()
    }

    /// Takes control of the process `pid`, which was spawned to be traced
    /// and has not been waited for, and installs a breakpoint at each of
    /// `breakpoints`.
    ///
    /// The process is waited for first. The start fails if that wait fails
    /// or reports anything but a stop; no breakpoint is installed then.
    /// After a stop each breakpoint is installed in turn; an installation
    /// that fails is reported in `installs` and does not end the start.
    pub fn new(pid: Pid, breakpoints: &Vec<usize>) -> (started: Result<Started, StartFailure>)
        ensures
            (match started {
                Ok(s) => {
                    &&& s.inferior.wf()
                    &&& s.inferior@.pid == pid
                    &&& s.installs@.len() == breakpoints@.len()
                    &&& leaves(
                        replay_start(s.inferior@.history, breakpoints@),
                        Ok::<_, StartError>((s.inferior@.table, s.installs@)),
                        s.inferior@.state,
                        s.inferior@.now(),
                    )
                },
                Err(f) => {
                    &&& f.inferior.wf()
                    &&& f.inferior@.pid == pid
                    &&& f.inferior@.table == Map::<usize, u8>::empty()
                    &&& leaves(
                        replay_start(f.inferior@.history, breakpoints@),
                        Err::<(Map<usize, u8>, Seq<Result<(), TraceError>>), _>(f.error),
                        f.inferior@.state,
                        f.inferior@.now(),
                    )
                },
            }),
    {
        let mut inferior = Inferior {
            pid,
            breakpoints: BreakpointTable::new(),
            state: State::Running,
            history: Ghost(Seq::empty()),
        };
        match inferior.wait(WaitMode::Blocking) {
            Err(e) => Err(StartFailure { inferior, error: StartError::Wait(e) }),
            Ok(Status::Stopped(_, _)) => {
                let ghost waited = inferior.history@;
                let installs = inferior.install_all(breakpoints);
                proof {
                    lemma_prefix_index(waited, inferior.history@, 0);
                    lemma_prefix_index(waited, inferior.history@, 1);
                    lemma_installs_len(
                        inferior.history@,
                        waited.len() as int,
                        Map::empty(),
                        breakpoints@,
                    );
                }
                Ok(Started { inferior, installs })
            },
            Ok(event) => Err(StartFailure { inferior, error: StartError::NotStopped(event) }),
        }
    }

    /// The identifier of the traced process.
    pub fn pid(&self) -> (pid: Pid)
        ensures
            pid == self@.pid,
    {
        self.pid
    }

    /// Where the process stands in its life.
    pub fn state(&self) -> (state: State)
        ensures
            state == self@.state,
    {
        self.state
    }

    /// Whether there is a breakpoint at `addr`.
    pub fn is_breakpoint(&self, addr: usize) -> (found: bool)
        ensures
            found == self@.table.contains_key(addr),
    {
        self.breakpoints.is_breakpoint(addr)
    }

    /// The breakpoint at `addr`, if there is one.
    pub fn lookup(&self, addr: usize) -> (found: Option<Breakpoint>)
        requires
            self.wf(),
        ensures
            found.is_some() == self@.table.contains_key(addr),
            found matches Some(b) ==> b.addr == addr && b.orig_byte == self@.table[addr],
    {
        self.breakpoints.lookup(addr)
    }

    /// Reads the registers of the stopped process. The snapshot is taken
    /// anew by every call.
    pub fn registers(&mut self) -> (regs: Result<Registers, TraceError>)
        requires
            old(self).wf(),
        ensures
            final(self).wf(),
            final(self)@.continues(old(self)@),
            gives(
                replay_registers(final(self)@.history, old(self)@.now()),
                regs,
                final(self)@.now(),
            ),
    {
        let answer = self.read_registers();
        lifted(answer)
    }

    /// Reads the machine word that starts at `addr` in the memory of the
    /// process.
    pub fn read_word(&mut self, addr: usize) -> (word: Result<u64, TraceError>)
        requires
            old(self).wf(),
        ensures
            final(self).wf(),
            final(self)@.continues(old(self)@),
            gives(
                replay_read_word(final(self)@.history, old(self)@.now(), addr),
                word,
                final(self)@.now(),
            ),
    {
        let answer = sys::peek(self.pid, addr);
        self.history = Ghost(self.history@.push(Exchange::Peek { addr, answer }));
        lifted(answer)
    }

    /// Stores `word` at `addr` in the memory of the process.
    pub fn write_word(&mut self, addr: usize, word: u64) -> (done: Result<(), TraceError>)
        requires
            old(self).wf(),
        ensures
            final(self).wf(),
            final(self)@.continues(old(self)@),
            gives(
                replay_write_word(final(self)@.history, old(self)@.now(), addr, word),
                done,
                final(self)@.now(),
            ),
    {
        let answer = sys::poke(self.pid, addr, word);
        self.history = Ghost(self.history@.push(Exchange::Poke { addr, word, answer }));
        lifted(answer)
    }

    /// Replaces the byte at `addr` in the memory of the process by `val`
    /// and returns the byte that stood there. The word around `addr` is
    /// read, changed in that one byte and written back whole.
    pub fn write_byte(&mut self, addr: usize, val: u8) -> (orig: Result<u8, TraceError>)
        requires
            old(self).wf(),
        ensures
            final(self).wf(),
            final(self)@.continues(old(self)@),
            gives(
                replay_patch(final(self)@.history, old(self)@.now(), addr, val),
                orig,
                final(self)@.now(),
            ),
    {
        let base = align_addr_to_word(addr);
        let k = byte_offset(addr);
        let word = match self.read_word(base) {
            Ok(word) => word,
            Err(e) => { return Err(e); },
        };
        let orig = extract_byte(word, k);
        match self.write_word(base, replace_byte(word, k, val)) {
            Ok(()) => Ok(orig),
            Err(e) => Err(e),
        }
    }

    /// Installs a breakpoint at `addr`: writes the trap opcode there and
    /// records the byte it replaced. Where `addr` has a breakpoint already,
    /// nothing is written and the recorded byte stays. Where the write
    /// fails, the error is returned and no breakpoint is recorded.
    pub fn set_breakpoint(&mut self, addr: usize) -> (done: Result<(), TraceError>)
        requires
            old(self).wf(),
        ensures
            final(self).wf(),
            final(self)@.pid == old(self)@.pid,
            final(self)@.state == old(self)@.state,
            old(self)@.history.is_prefix_of(final(self)@.history),
            gives(
                replay_install(final(self)@.history, old(self)@.now(), old(self)@.table, addr),
                (Installed { result: done, table: final(self)@.table }),
                final(self)@.now(),
            ),
    {
        if self.breakpoints.is_breakpoint(addr) {
            return Ok(());
        }
        match self.write_byte(addr, TRAP_OPCODE) {
            Ok(orig) => {
                self.breakpoints.record(addr, orig);
                Ok(())
            },
            Err(e) => Err(e),
        }
    }

    /// Puts the original byte back at the breakpoint `addr`. The breakpoint
    /// stays in the table. Where there is no breakpoint at `addr`, nothing
    /// is written and the error says so.
    pub fn restore_byte(&mut self, addr: usize) -> (done: Result<(), TraceError>)
        requires
            old(self).wf(),
        ensures
            final(self).wf(),
            final(self)@.continues(old(self)@),
            gives(
                replay_restore(final(self)@.history, old(self)@.now(), old(self)@.table, addr),
                done,
                final(self)@.now(),
            ),
    {
        let orig = match self.breakpoints.lookup(addr) {
            Some(breakpoint) => breakpoint.orig_byte,
            None => { return Err(TraceError::UnknownBreakpoint(addr)); },
        };
        match self.write_byte(addr, orig) {
            Ok(_) => Ok(()),
            Err(e) => Err(e),
        }
    }

    /// Waits for the next event of the process.
    ///
    /// A process that is gone is not waited for: its last event is
    /// reported again. Otherwise the operating system is asked once. An
    /// exit or an end by a signal ends the life of the process; for a stop
    /// the registers are read for the program counter to report. An answer
    /// of any other category is the fatal error
    /// `TraceError::UnexpectedWaitStatus`.
    pub fn wait(&mut self, mode: WaitMode) -> (event: Result<Status, TraceError>)
        requires
            old(self).wf(),
        ensures
            final(self).wf(),
            final(self)@.follows(old(self)@),
            leaves(
                replay_wait(final(self)@.history, old(self)@.now(), old(self)@.state, mode),
                event,
                final(self)@.state,
                final(self)@.now(),
            ),
    {
        if let Some(event) = self.state.termination() {
            return Ok(event);
        }
        let answer = sys::wait_for(self.pid, mode);
        self.history = Ghost(self.history@.push(Exchange::Wait { mode, answer }));
        let outcome = match answer {
            Ok(outcome) => outcome,
            Err(e) => { return Err(TraceError::Os(e)); },
        };
        match outcome {
            WaitOutcome::Stopped(signal) => {
                self.state = State::StoppedOther;
                match self.read_registers() {
                    Ok(regs) => Ok(Status::Stopped(signal, regs.pc as usize)),
                    Err(e) => Err(TraceError::Os(e)),
                }
            },
            _ => {
                let event = translate(outcome, 0);
                if let Ok(status) = event {
                    self.state = State::settled(status);
                }
                event
            },
        }
    }

    /// Continues the process and returns its next event.
    ///
    /// A process halted at a breakpoint is first stepped over it, as
    /// `continue_from_breakpoint` does; any other live process is resumed
    /// and waited for. An event that reports the trap of a breakpoint is
    /// returned with the address of the breakpoint as its program counter,
    /// and leaves the process halted at that breakpoint; any other event is
    /// returned as it came. A process that is gone has its last event
    /// reported again.
    pub fn continue_process(&mut self) -> (event: Result<Status, TraceError>)
        requires
            old(self).wf(),
        ensures
            final(self).wf(),
            final(self)@.follows(old(self)@),
            leaves(
                replay_continue(
                    final(self)@.history,
                    old(self)@.now(),
                    old(self)@.table,
                    old(self)@.state,
                ),
                event,
                final(self)@.state,
                final(self)@.now(),
            ),
    {
        match self.state {
            State::Exited(code) => Ok(Status::Exited(code)),
            State::Signaled(signal) => Ok(Status::Signaled(signal)),
            State::StoppedAtBreakpoint(bp) => self.continue_from_breakpoint(bp),
            _ => self.resume_and_wait(),
        }
    }

    /// Steps the process, halted by the trap of the breakpoint at `bp`,
    /// over that breakpoint, and continues it.
    ///
    /// The program counter is moved back to `bp`, the original byte is put
    /// back there, one instruction is executed, and the trap opcode is
    /// written again; then the process is resumed and its next event
    /// returned. The first request that fails ends the operation with its
    /// error. A process that exits or is ended during the single step, or
    /// that stops on a signal other than the trap, has that event returned
    /// and is not resumed. Where there is no breakpoint at `bp`, nothing is
    /// asked of the process and the error says so.
    pub fn continue_from_breakpoint(&mut self, bp: usize) -> (event: Result<Status, TraceError>)
        requires
            old(self).wf(),
        ensures
            final(self).wf(),
            final(self)@.follows(old(self)@),
            leaves(
                replay_step_over(
                    final(self)@.history,
                    old(self)@.now(),
                    old(self)@.table,
                    old(self)@.state,
                    bp,
                ),
                event,
                final(self)@.state,
                final(self)@.now(),
            ),
    {
        if !self.breakpoints.is_breakpoint(bp) {
            return Err(TraceError::UnknownBreakpoint(bp));
        }
        if let Err(e) = self.set_program_counter(bp) {
            return Err(e);
        }
        if let Err(e) = self.restore_byte(bp) {
            return Err(e);
        }
        if let Err(e) = self.single_step() {
            return Err(TraceError::Os(e));
        }
        let stepped = match self.wait(WaitMode::Blocking) {
            Ok(stepped) => stepped,
            Err(e) => { return Err(e); },
        };
        match stepped {
            Status::Stopped(signal, _) => {
                if let Err(e) = self.write_byte(bp, TRAP_OPCODE) {
                    return Err(e);
                }
                if signal == SIGTRAP {
                    self.resume_and_wait()
                } else {
                    Ok(stepped)
                }
            },
            _ => Ok(stepped),
        }
    }

    /// Ends the process and waits for it once. A process that is gone
    /// already is sent nothing. Failures are reported in the value
    /// returned, never raised.
    pub fn kill(&mut self) -> (killed: Killed)
        requires
            old(self).wf(),
        ensures
            final(self).wf(),
            final(self)@.follows(old(self)@),
            leaves(
                replay_kill(final(self)@.history, old(self)@.now(), old(self)@.state),
                killed,
                final(self)@.state,
                final(self)@.now(),
            ),
    {
        if let Some(event) = self.state.termination() {
            return Killed { signal: None, reaped: Ok(event) };
        }
        let answer = sys::force_kill(self.pid);
        self.history = Ghost(self.history@.push(Exchange::Kill { answer }));
        let ghost sent = self.history@;
        let reaped = self.wait(WaitMode::Blocking);
        proof {
            lemma_prefix_index(sent, self.history@, old(self)@.now());
        }
        Killed { signal: Some(lifted(answer)), reaped }
    }

    /// Installs a breakpoint at each of `addrs`, in order, and returns the
    /// result of each installation.
    fn install_all(&mut self, addrs: &Vec<usize>) -> (results: Vec<Result<(), TraceError>>)
        requires
            old(self).wf(),
        ensures
            final(self).wf(),
            final(self)@.pid == old(self)@.pid,
            final(self)@.state == old(self)@.state,
            old(self)@.history.is_prefix_of(final(self)@.history),
            gives(
                replay_installs(final(self)@.history, old(self)@.now(), old(self)@.table, addrs@),
                (final(self)@.table, results@),
                final(self)@.now(),
            ),
    {
        let mut results: Vec<Result<(), TraceError>> = Vec::new();
        let mut i: usize = 0;
        while i < addrs.len()
            invariant
                0 <= i <= addrs.len(),
                self.wf(),
                self@.pid == old(self)@.pid,
                self@.state == old(self)@.state,
                old(self)@.history.is_prefix_of(self@.history),
                gives(
                    replay_installs(
                        self@.history,
                        old(self)@.now(),
                        old(self)@.table,
                        addrs@.take(i as int),
                    ),
                    (self@.table, results@),
                    self@.now(),
                ),
            decreases addrs.len() - i,
        {
            let ghost before = self@.history;
            let done = self.set_breakpoint(addrs[i]);
            results.push(done);
            proof {
                let upto = addrs@.take(i as int);
                assert(addrs@.take(i + 1).drop_last() =~= upto);
                lemma_installs_stable(
                    before,
                    self@.history,
                    old(self)@.now(),
                    old(self)@.table,
                    upto,
                );
            }
            i += 1;
        }
        assert(addrs@.take(i as int) =~= addrs@);
        results
    }

    /// Resumes the process and waits for its next event; a trap is
    /// attributed to its breakpoint.
    fn resume_and_wait(&mut self) -> (event: Result<Status, TraceError>)
        requires
            old(self).wf(),
        ensures
            final(self).wf(),
            final(self)@.follows(old(self)@),
            leaves(
                replay_resume(
                    final(self)@.history,
                    old(self)@.now(),
                    old(self)@.table,
                    old(self)@.state,
                ),
                event,
                final(self)@.state,
                final(self)@.now(),
            ),
    {
        let answer = sys::resume(self.pid);
        self.history = Ghost(self.history@.push(Exchange::Resume { answer }));
        if let Err(e) = answer {
            return Err(TraceError::Os(e));
        }
        self.state = State::Running;
        let ghost resumed = self.history@;
        let waited = self.wait(WaitMode::Blocking);
        proof {
            lemma_prefix_index(resumed, self.history@, old(self)@.now());
        }
        let event = match waited {
            Ok(event) => event,
            Err(e) => { return Err(e); },
        };
        match self.breakpoints.hit_by(event) {
            Some(bp) => {
                self.state = State::StoppedAtBreakpoint(bp);
                Ok(Status::Stopped(SIGTRAP, bp))
            },
            None => Ok(event),
        }
    }

    /// Moves the program counter of the process to `pc`: reads the
    /// registers, replaces the program counter in the copy, and writes the
    /// copy back.
    fn set_program_counter(&mut self, pc: usize) -> (done: Result<(), TraceError>)
        requires
            old(self).wf(),
        ensures
            final(self).wf(),
            final(self)@.continues(old(self)@),
            gives(
                replay_set_pc(final(self)@.history, old(self)@.now(), pc),
                done,
                final(self)@.now(),
            ),
    {
        let regs = match self.read_registers() {
            Ok(regs) => regs,
            Err(e) => { return Err(TraceError::Os(e)); },
        };
        let moved = regs.with_pc(pc);
        let answer = sys::write_registers(self.pid, &moved);
        self.history = Ghost(
            self.history@.push(Exchange::WriteRegisters { registers: moved, answer }),
        );
        lifted(answer)
    }

    /// Asks that the stopped process execute one instruction. A process
    /// that takes the step is running.
    fn single_step(&mut self) -> (answer: Result<(), Error>)
        requires
            old(self).wf(),
        ensures
            final(self).wf(),
            final(self)@.follows(old(self)@),
            final(self)@.history == old(self)@.history.push((Exchange::Step { answer })),
            final(self)@.state == (if answer.is_ok() {
                State::Running
            } else {
                old(self)@.state
            }),
    {
        let answer = sys::single_step(self.pid);
        self.history = Ghost(self.history@.push(Exchange::Step { answer }));
        if answer.is_ok() {
            self.state = State::Running;
        }
        answer
    }

    /// Asks for the registers of the stopped process.
    fn read_registers(&mut self) -> (answer: Result<Registers, Error>)
        ensures
            final(self)@ == old(self)@.asked((Exchange::ReadRegisters { answer })),
            final(self).wf() == old(self).wf(),
    {
        let answer = sys::read_registers(self.pid);
        self.history = Ghost(self.history@.push(Exchange::ReadRegisters { answer }));
        answer
    }
}

} // verus!
