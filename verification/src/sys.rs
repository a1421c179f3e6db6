//! The requests made of the operating system.
//!
//! Each function here hands one request to the trace facility or to the
//! process table and brings the answer back as plain values. What the
//! operating system answers depends on the traced process, so nothing is
//! claimed of any answer: the callers are verified for every one of them.

use crate::registers::Registers;
use crate::status::{WaitMode, WaitOutcome};
use nix::sys::ptrace;
use nix::sys::signal::{kill, Signal};
use nix::sys::wait::{waitpid, WaitPidFlag, WaitStatus};
use nix::unistd::Pid;
use nix::Error;
use vstd::prelude::*;

verus! {

/// The identifier of a process, `nix::unistd::Pid`. Its inside is not looked at.
#[verifier::external_type_specification]
#[verifier::external_body]
pub struct ExPid(nix::unistd::Pid);

/// The error of a refused request, `nix::Error`. Its inside is not looked at.
#[verifier::external_type_specification]
#[verifier::external_body]
pub struct ExError(nix::Error);

/// The full register set of a stopped process, `libc::user_regs_struct` as
/// `nix` hands it out. Its inside is not looked at.
#[verifier::external_type_specification]
#[verifier::external_body]
pub struct ExUserRegs(nix::libc::user_regs_struct);

/// Calls `nix::sys::ptrace::cont` with no signal to deliver: asks that the
/// stopped process run on. Nothing is claimed of the answer.
#[verifier::external_body]
pub(crate) fn resume(pid: Pid) -> (answer: Result<(), Error>) {
    ptrace::cont(pid, None)
}

/// Calls `nix::sys::ptrace::step` with no signal to deliver: asks that the
/// stopped process execute one instruction. Nothing is claimed of the answer.
#[verifier::external_body]
pub(crate) fn single_step(pid: Pid) -> (answer: Result<(), Error>) {
    ptrace::step(pid, None)
}

/// Calls `nix::sys::ptrace::read`: asks for the word at `addr` in the memory
/// of the process. Nothing is claimed of the answer.
#[verifier::external_body]
pub(crate) fn peek(pid: Pid, addr: usize) -> (answer: Result<u64, Error>) {
    match ptrace::read(pid, addr as ptrace::AddressType) {
        Ok(word) => Ok(word as u64),
        Err(e) => Err(e),
    }
}

/// Calls `nix::sys::ptrace::write`: asks that `word` be stored at `addr` in
/// the memory of the process. Nothing is claimed of the answer.
#[verifier::external_body]
pub(crate) fn poke(pid: Pid, addr: usize, word: u64) -> (answer: Result<(), Error>) {
    ptrace::write(pid, addr as ptrace::AddressType, word as ptrace::AddressType)
}

/// Calls `nix::sys::ptrace::getregs`: asks for the registers of the stopped
/// process. Nothing is claimed of the answer.
#[verifier::external_body]
pub(crate) fn read_registers(pid: Pid) -> (answer: Result<Registers, Error>) {
    match ptrace::getregs(pid) {
        Ok(raw) => Ok(Registers { pc: raw.rip, fp: raw.rbp, raw }),
        Err(e) => Err(e),
    }
}

/// Calls `nix::sys::ptrace::setregs` with the set that `regs` was taken
/// from, its program counter and frame pointer replaced by those of `regs`.
/// Nothing is claimed of the answer.
#[verifier::external_body]
pub(crate) fn write_registers(pid: Pid, regs: &Registers) -> (answer: Result<(), Error>) {
    let mut raw = regs.raw;
    raw.rip = regs.pc;
    raw.rbp = regs.fp;
    ptrace::setregs(pid, raw)
}

/// Calls `nix::sys::wait::waitpid` on the process, with `WNOHANG` in the
/// non-blocking mode and no flag otherwise, and names the category of the
/// answer. Nothing is claimed of the answer.
#[verifier::external_body]
pub(crate) fn wait_for(pid: Pid, mode: WaitMode) -> (answer: Result<WaitOutcome, Error>) {
    let flags = match mode {
        WaitMode::Blocking => None,
        WaitMode::NonBlocking => Some(WaitPidFlag::WNOHANG),
    };
    Ok(match waitpid(pid, flags)? {
        WaitStatus::Exited(_, code) => WaitOutcome::Exited(code),
        WaitStatus::Signaled(_, signal, core) => WaitOutcome::Signaled(signal as i32, core),
        WaitStatus::Stopped(_, signal) => WaitOutcome::Stopped(signal as i32),
        WaitStatus::PtraceEvent(_, signal, event) => WaitOutcome::PtraceEvent(signal as i32, event),
        WaitStatus::PtraceSyscall(_) => WaitOutcome::PtraceSyscall,
        WaitStatus::Continued(_) => WaitOutcome::Continued,
        WaitStatus::StillAlive => WaitOutcome::StillAlive,
    })
}

/// Calls `nix::sys::signal::kill` with the kill signal: asks that the
/// process be ended. Nothing is claimed of the answer.
#[verifier::external_body]
pub(crate) fn force_kill(pid: Pid) -> (answer: Result<(), Error>) {
    kill(pid, Signal::SIGKILL)
}

} // verus!
