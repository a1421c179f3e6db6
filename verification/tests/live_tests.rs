use inferior::{
    align_addr_to_word, byte_offset, extract_byte, replace_byte, Frame, Inferior, Killed,
    StartError, Started, State, Status, TraceError, WaitMode, WaitOutcome, SIGKILL, SIGTRAP,
    TRAP_OPCODE,
};
use nix::errno::Errno;
use nix::sys::ptrace;
use nix::sys::signal::{kill, raise, Signal};
use nix::unistd::{execv, fork, getpid, pause, ForkResult, Pid};
use nix::NixPath;

const SIGSTOP: i32 = 19;

/// Ends the calling process at once; for a child that must not run on.
fn end_self() {
    let _ = kill(getpid(), Signal::SIGKILL);
    loop {
        pause();
    }
}

/// Spawns `/bin/true` to be traced. It stops when it has been loaded.
fn spawn_true() -> Pid {
    match fork().expect("fork") {
        ForkResult::Child => {
            let _ = ptrace::traceme();
            let _ = "/bin/true".with_nix_path(|path| execv(path, &[path]));
            end_self();
            unreachable!()
        }
        ForkResult::Parent { child } => child,
    }
}

/// Spawns `/bin/true` without asking that it be traced.
fn spawn_untraced_true() -> Pid {
    match fork().expect("fork") {
        ForkResult::Child => {
            let _ = "/bin/true".with_nix_path(|path| execv(path, &[path]));
            end_self();
            unreachable!()
        }
        ForkResult::Parent { child } => child,
    }
}

/// A function for a breakpoint at its first instruction. It is called
/// through a pointer, so that the call goes to that instruction.
fn foo(x: u64) -> u64 {
    std::hint::black_box(x.wrapping_mul(3).wrapping_add(1))
}

/// The address of the first instruction of `foo`.
fn address_of_foo() -> usize {
    let called: fn(u64) -> u64 = std::hint::black_box(foo);
    called as usize
}

/// Spawns a copy of this process that stops itself, then calls `foo`
/// and turns into `/bin/true`.
fn spawn_caller_of_foo() -> Pid {
    let called: fn(u64) -> u64 = std::hint::black_box(foo);
    assert_eq!(called as usize, address_of_foo());
    match fork().expect("fork") {
        ForkResult::Child => {
            let _ = ptrace::traceme();
            let _ = raise(Signal::SIGSTOP);
            let _ = std::hint::black_box(called(std::hint::black_box(7)));
            let _ = "/bin/true".with_nix_path(|path| execv(path, &[path]));
            end_self();
            unreachable!()
        }
        ForkResult::Parent { child } => child,
    }
}

/// Spawns a copy of this process that stops itself and then sleeps for
/// ever.
fn spawn_sleeper() -> Pid {
    match fork().expect("fork") {
        ForkResult::Child => {
            let _ = ptrace::traceme();
            let _ = raise(Signal::SIGSTOP);
            loop {
                pause();
            }
        }
        ForkResult::Parent { child } => child,
    }
}

fn start(pid: Pid, breakpoints: &Vec<usize>) -> Started {
    match Inferior::new(pid, breakpoints) {
        Ok(started) => started,
        Err(failure) => panic!("start failed: {:?}", failure.error),
    }
}

fn byte_at(inferior: &mut Inferior, addr: usize) -> u8 {
    let word = inferior.read_word(align_addr_to_word(addr)).expect("read");
    extract_byte(word, byte_offset(addr))
}

#[test]
fn program_without_breakpoints_runs_to_its_exit() {
    let pid = spawn_true();
    let Started { mut inferior, installs } = start(pid, &vec![]);
    assert!(installs.is_empty());
    assert_eq!(inferior.pid(), pid);
    assert_eq!(inferior.state(), State::StoppedOther);
    assert_eq!(inferior.continue_process(), Ok(Status::Exited(0)));
    assert_eq!(inferior.state(), State::Exited(0));
}

#[test]
fn breakpoint_at_foo_stops_there_and_is_stepped_over() {
    let at_foo = address_of_foo();
    let pid = spawn_caller_of_foo();
    let Started { mut inferior, installs } = start(pid, &vec![at_foo]);
    assert_eq!(installs, vec![Ok(())]);
    assert!(inferior.is_breakpoint(at_foo));
    assert_eq!(byte_at(&mut inferior, at_foo), TRAP_OPCODE);

    assert_eq!(inferior.continue_process(), Ok(Status::Stopped(SIGTRAP, at_foo)));
    assert_eq!(inferior.state(), State::StoppedAtBreakpoint(at_foo));
    assert_eq!(inferior.registers().expect("registers").pc, at_foo as u64 + 1);

    match inferior.continue_process() {
        Ok(Status::Stopped(signal, pc)) => {
            assert_eq!(signal, SIGTRAP);
            assert_ne!(pc, at_foo);
            assert_ne!(pc, at_foo + 1);
        }
        other => panic!("the process did not reach its exec: {:?}", other),
    }
    assert_eq!(inferior.state(), State::StoppedOther);
    assert_eq!(inferior.continue_process(), Ok(Status::Exited(0)));
    assert_eq!(inferior.continue_process(), Ok(Status::Exited(0)));
}

#[test]
fn installed_breakpoint_records_the_byte_it_replaced() {
    let at_foo = address_of_foo();
    let pid = spawn_caller_of_foo();
    let Started { mut inferior, .. } = start(pid, &vec![]);
    let word = inferior.read_word(align_addr_to_word(at_foo)).expect("read");
    let original = extract_byte(word, byte_offset(at_foo));
    assert_ne!(original, TRAP_OPCODE);
    assert_eq!(inferior.set_breakpoint(at_foo), Ok(()));
    assert_eq!(inferior.lookup(at_foo).expect("breakpoint").orig_byte, original);
    assert_eq!(
        inferior.read_word(align_addr_to_word(at_foo)),
        Ok(replace_byte(word, byte_offset(at_foo), TRAP_OPCODE))
    );
    assert_eq!(inferior.continue_process(), Ok(Status::Stopped(SIGTRAP, at_foo)));
    assert_eq!(byte_at(&mut inferior, at_foo), TRAP_OPCODE);
    inferior.kill();
}

#[test]
fn original_byte_shows_while_the_breakpoint_is_lifted() {
    let at_foo = address_of_foo();
    let pid = spawn_caller_of_foo();
    let Started { mut inferior, .. } = start(pid, &vec![at_foo]);
    let original = inferior.lookup(at_foo).expect("breakpoint").orig_byte;
    assert_eq!(inferior.continue_process(), Ok(Status::Stopped(SIGTRAP, at_foo)));

    // Done by hand, the first half of the step over shows the original byte.
    assert_eq!(inferior.restore_byte(at_foo), Ok(()));
    assert_eq!(byte_at(&mut inferior, at_foo), original);
    assert!(inferior.is_breakpoint(at_foo));
    assert_eq!(inferior.write_byte(at_foo, TRAP_OPCODE), Ok(original));
    assert_eq!(byte_at(&mut inferior, at_foo), TRAP_OPCODE);

    assert!(matches!(inferior.continue_from_breakpoint(at_foo), Ok(Status::Stopped(SIGTRAP, _))));
    assert_eq!(inferior.continue_process(), Ok(Status::Exited(0)));
}

#[test]
fn second_breakpoint_where_the_single_step_lands_is_hit_next() {
    // A first process shows where one instruction from the start of `foo`
    // leads.
    let at_foo = address_of_foo();
    let probe = spawn_caller_of_foo();
    let Started { inferior: mut probing, .. } = start(probe, &vec![at_foo]);
    assert_eq!(probing.continue_process(), Ok(Status::Stopped(SIGTRAP, at_foo)));
    assert_eq!(probing.restore_byte(at_foo), Ok(()));
    let mut regs = ptrace::getregs(probe).expect("registers");
    regs.rip = at_foo as u64;
    ptrace::setregs(probe, regs).expect("set registers");
    ptrace::step(probe, None).expect("step");
    let landing = match probing.wait(WaitMode::Blocking) {
        Ok(Status::Stopped(signal, pc)) => {
            assert_eq!(signal, SIGTRAP);
            pc
        }
        other => panic!("no stop after the step: {:?}", other),
    };
    assert_ne!(landing, at_foo);
    probing.kill();

    let pid = spawn_caller_of_foo();
    let Started { mut inferior, installs } = start(pid, &vec![at_foo, landing]);
    assert_eq!(installs, vec![Ok(()), Ok(())]);
    assert_eq!(inferior.continue_process(), Ok(Status::Stopped(SIGTRAP, at_foo)));
    assert_eq!(inferior.continue_process(), Ok(Status::Stopped(SIGTRAP, landing)));
    assert_eq!(inferior.state(), State::StoppedAtBreakpoint(landing));
    // The first breakpoint has been stepped over and stands armed again.
    assert_eq!(byte_at(&mut inferior, at_foo), TRAP_OPCODE);
    assert_eq!(byte_at(&mut inferior, landing), TRAP_OPCODE);
    assert!(matches!(inferior.continue_process(), Ok(Status::Stopped(SIGTRAP, _))));
    assert_eq!(inferior.continue_process(), Ok(Status::Exited(0)));
}

#[test]
fn installing_twice_keeps_the_original_byte() {
    let at_foo = address_of_foo();
    let pid = spawn_caller_of_foo();
    let Started { mut inferior, .. } = start(pid, &vec![]);
    let original = byte_at(&mut inferior, at_foo);
    assert_eq!(inferior.set_breakpoint(at_foo), Ok(()));
    assert_eq!(inferior.set_breakpoint(at_foo), Ok(()));
    let breakpoint = inferior.lookup(at_foo).expect("breakpoint");
    assert_eq!(breakpoint.addr, at_foo);
    assert_eq!(breakpoint.orig_byte, original);
    assert_ne!(breakpoint.orig_byte, TRAP_OPCODE);
    assert_eq!(byte_at(&mut inferior, at_foo), TRAP_OPCODE);
    inferior.kill();
}

#[test]
fn breakpoints_asked_for_twice_at_start_keep_the_original_byte() {
    let at_foo = address_of_foo();
    let pid = spawn_caller_of_foo();
    let Started { mut inferior, installs } = start(pid, &vec![at_foo, at_foo]);
    assert_eq!(installs, vec![Ok(()), Ok(())]);
    assert_ne!(inferior.lookup(at_foo).expect("breakpoint").orig_byte, TRAP_OPCODE);
    inferior.kill();
}

#[test]
fn breakpoint_at_unmapped_address_is_reported_and_not_recorded() {
    let pid = spawn_true();
    let Started { mut inferior, installs } = start(pid, &vec![0x10]);
    assert_eq!(installs.len(), 1);
    assert!(matches!(installs[0], Err(TraceError::Os(_))));
    assert!(!inferior.is_breakpoint(0x10));
    assert_eq!(inferior.lookup(0x10), None);
    assert!(matches!(inferior.set_breakpoint(0x10), Err(TraceError::Os(_))));
    assert!(!inferior.is_breakpoint(0x10));
    assert_eq!(inferior.continue_process(), Ok(Status::Exited(0)));
}

#[test]
fn failed_installation_does_not_keep_the_next_from_being_made() {
    let at_foo = address_of_foo();
    let pid = spawn_caller_of_foo();
    let Started { mut inferior, installs } = start(pid, &vec![0x10, at_foo]);
    assert_eq!(installs.len(), 2);
    assert!(installs[0].is_err());
    assert_eq!(installs[1], Ok(()));
    assert!(!inferior.is_breakpoint(0x10));
    assert!(inferior.is_breakpoint(at_foo));
    assert_eq!(inferior.continue_process(), Ok(Status::Stopped(SIGTRAP, at_foo)));
    inferior.kill();
}

#[test]
fn kill_while_running_is_reported_as_end_by_the_kill_signal() {
    let pid = spawn_sleeper();
    let Started { mut inferior, .. } = start(pid, &vec![]);
    ptrace::cont(pid, None).expect("resume");
    let killed = inferior.kill();
    assert_eq!(killed, Killed { signal: Some(Ok(())), reaped: Ok(Status::Signaled(SIGKILL)) });
    assert_eq!(inferior.state(), State::Signaled(SIGKILL));
    assert_eq!(inferior.wait(WaitMode::Blocking), Ok(Status::Signaled(SIGKILL)));
    assert_eq!(inferior.wait(WaitMode::NonBlocking), Ok(Status::Signaled(9)));
}

#[test]
fn kill_while_stopped_ends_the_process() {
    let pid = spawn_sleeper();
    let Started { mut inferior, .. } = start(pid, &vec![]);
    let killed = inferior.kill();
    assert_eq!(killed.signal, Some(Ok(())));
    assert_eq!(killed.reaped, Ok(Status::Signaled(SIGKILL)));
    assert_eq!(inferior.continue_process(), Ok(Status::Signaled(SIGKILL)));
}

#[test]
fn kill_and_wait_on_a_process_that_is_gone_report_its_end() {
    let pid = spawn_true();
    let Started { mut inferior, .. } = start(pid, &vec![]);
    assert_eq!(inferior.continue_process(), Ok(Status::Exited(0)));
    let killed = inferior.kill();
    assert_eq!(killed, Killed { signal: None, reaped: Ok(Status::Exited(0)) });
    assert_eq!(inferior.wait(WaitMode::Blocking), Ok(Status::Exited(0)));
    assert_eq!(inferior.kill().reaped, Ok(Status::Exited(0)));
    assert_eq!(inferior.state(), State::Exited(0));
}

#[test]
fn start_fails_for_a_process_that_is_no_child() {
    match Inferior::new(Pid::from_raw(1), &vec![0x1000]) {
        Ok(_) => panic!("took control of a stranger"),
        Err(failure) => {
            assert_eq!(
                failure.error,
                StartError::Wait(TraceError::Os(nix::Error::Sys(Errno::ECHILD)))
            );
            assert_eq!(failure.inferior.state(), State::Running);
            assert!(!failure.inferior.is_breakpoint(0x1000));
        }
    }
}

#[test]
fn start_fails_for_a_process_that_exits_instead_of_stopping() {
    let pid = spawn_untraced_true();
    match Inferior::new(pid, &vec![0x1000]) {
        Ok(_) => panic!("started a process that is gone"),
        Err(mut failure) => {
            assert_eq!(failure.error, StartError::NotStopped(Status::Exited(0)));
            assert_eq!(failure.inferior.state(), State::Exited(0));
            assert!(!failure.inferior.is_breakpoint(0x1000));
            assert_eq!(failure.inferior.kill().signal, None);
        }
    }
}

#[test]
fn first_stop_of_a_self_stopped_process_is_reported_by_wait() {
    let pid = spawn_sleeper();
    let Started { mut inferior, .. } = start(pid, &vec![]);
    assert_eq!(inferior.state(), State::StoppedOther);
    ptrace::cont(pid, Signal::SIGSTOP).expect("resume");
    match inferior.wait(WaitMode::Blocking) {
        Ok(Status::Stopped(signal, pc)) => {
            assert_eq!(signal, SIGSTOP);
            assert_eq!(pc as u64, inferior.registers().expect("registers").pc);
        }
        other => panic!("no stop: {:?}", other),
    }
    inferior.kill();
}

#[test]
fn wait_with_nothing_to_report_is_the_fatal_error() {
    let pid = spawn_sleeper();
    let Started { mut inferior, .. } = start(pid, &vec![]);
    assert_eq!(
        inferior.wait(WaitMode::NonBlocking),
        Err(TraceError::UnexpectedWaitStatus(WaitOutcome::StillAlive))
    );
    assert_eq!(inferior.state(), State::StoppedOther);
    inferior.kill();
}

#[test]
fn stepping_over_an_address_without_breakpoint_is_refused() {
    let pid = spawn_sleeper();
    let Started { mut inferior, .. } = start(pid, &vec![]);
    let pc = inferior.registers().expect("registers").pc as usize;
    assert_eq!(inferior.continue_from_breakpoint(pc), Err(TraceError::UnknownBreakpoint(pc)));
    assert_eq!(inferior.restore_byte(pc), Err(TraceError::UnknownBreakpoint(pc)));
    assert_eq!(inferior.state(), State::StoppedOther);
    assert_eq!(inferior.registers().expect("registers").pc as usize, pc);
    inferior.kill();
}

#[test]
fn writing_a_byte_changes_that_byte_of_the_memory_only() {
    let pid = spawn_sleeper();
    let Started { mut inferior, .. } = start(pid, &vec![]);
    let sp = inferior.registers().expect("registers").raw.rsp as usize;
    let base = align_addr_to_word(sp);
    for k in 0..8 {
        let before = inferior.read_word(base).expect("read");
        let below = inferior.read_word(base - 8).expect("read");
        let above = inferior.read_word(base + 8).expect("read");
        let original = inferior.write_byte(base + k, 0xa5).expect("write");
        assert_eq!(original, extract_byte(before, k));
        assert_eq!(inferior.read_word(base), Ok(replace_byte(before, k, 0xa5)));
        assert_eq!(inferior.read_word(base - 8), Ok(below));
        assert_eq!(inferior.read_word(base + 8), Ok(above));
    }
    assert_eq!(inferior.read_word(base), Ok(0xa5a5_a5a5_a5a5_a5a5));
    inferior.kill();
}

#[test]
fn words_are_written_and_read_back_whole() {
    let pid = spawn_sleeper();
    let Started { mut inferior, .. } = start(pid, &vec![]);
    let sp = inferior.registers().expect("registers").raw.rsp as usize;
    let base = align_addr_to_word(sp);
    assert_eq!(inferior.write_word(base, 0x0123_4567_89ab_cdef), Ok(()));
    assert_eq!(inferior.read_word(base), Ok(0x0123_4567_89ab_cdef));
    assert_eq!(inferior.write_word(base, u64::MAX), Ok(()));
    assert_eq!(inferior.read_word(base), Ok(u64::MAX));
    assert!(matches!(inferior.read_word(0x10), Err(TraceError::Os(_))));
    assert!(matches!(inferior.write_word(0x10, 0), Err(TraceError::Os(_))));
    assert!(matches!(inferior.write_byte(0x13, 0), Err(TraceError::Os(_))));
    inferior.kill();
}

#[test]
fn requests_to_a_process_that_is_gone_fail() {
    let pid = spawn_true();
    let Started { mut inferior, .. } = start(pid, &vec![]);
    assert_eq!(inferior.continue_process(), Ok(Status::Exited(0)));
    assert_eq!(inferior.read_word(0x1000), Err(TraceError::Os(nix::Error::Sys(Errno::ESRCH))));
    assert_eq!(inferior.set_breakpoint(0x1000), Err(TraceError::Os(nix::Error::Sys(Errno::ESRCH))));
    assert!(!inferior.is_breakpoint(0x1000));
    assert!(inferior.registers().is_err());
    assert!(inferior.current_frame().is_err());
}

#[test]
fn moving_the_program_counter_of_a_snapshot_keeps_the_rest() {
    let pid = spawn_sleeper();
    let Started { mut inferior, .. } = start(pid, &vec![]);
    let regs = inferior.registers().expect("registers");
    let moved = regs.with_pc(0x40_1136);
    assert_eq!(moved.pc, 0x40_1136);
    assert_eq!(moved.fp, regs.fp);
    assert_eq!(moved.raw, regs.raw);
    assert_eq!(regs.pc, regs.raw.rip);
    assert_eq!(regs.fp, regs.raw.rbp);
    // The process has not been told: its registers are what they were.
    assert_eq!(inferior.registers().expect("registers").pc, regs.pc);
    inferior.kill();
}

#[test]
fn walk_starts_at_the_registers() {
    let pid = spawn_sleeper();
    let Started { mut inferior, .. } = start(pid, &vec![]);
    let regs = inferior.registers().expect("registers");
    assert_eq!(
        inferior.current_frame(),
        Ok(Frame { pc: regs.pc as usize, fp: regs.fp as usize })
    );
    inferior.kill();
}

#[test]
fn caller_frame_is_read_from_the_two_words_at_the_frame_pointer() {
    let pid = spawn_sleeper();
    let Started { mut inferior, .. } = start(pid, &vec![]);
    let sp = inferior.registers().expect("registers").raw.rsp as usize;
    let fp = align_addr_to_word(sp);
    assert_eq!(inferior.write_word(fp, 0x7ffc_0000_1000), Ok(()));
    assert_eq!(inferior.write_word(fp + 8, 0x40_1136), Ok(()));
    let frame = Frame { pc: 0x40_2000, fp };
    assert_eq!(inferior.caller_frame(frame), Ok(Frame { pc: 0x40_1136, fp: 0x7ffc_0000_1000 }));
    assert_eq!(
        inferior.backtrace_step(frame, &Some("helper".to_string())),
        Ok(Some(Frame { pc: 0x40_1136, fp: 0x7ffc_0000_1000 }))
    );
    assert_eq!(
        inferior.backtrace_step(frame, &None),
        Ok(Some(Frame { pc: 0x40_1136, fp: 0x7ffc_0000_1000 }))
    );
    inferior.kill();
}

#[test]
fn walk_ends_at_the_entry_function() {
    let pid = spawn_sleeper();
    let Started { mut inferior, .. } = start(pid, &vec![]);
    let frame = Frame { pc: 0x40_2000, fp: 0x10 };
    assert_eq!(inferior.backtrace_step(frame, &Some("main".to_string())), Ok(None));
    inferior.kill();
}

#[test]
fn walk_ends_early_where_a_read_fails() {
    let pid = spawn_sleeper();
    let Started { mut inferior, .. } = start(pid, &vec![]);
    let frame = Frame { pc: 0x40_2000, fp: 0x10 };
    assert!(matches!(inferior.caller_frame(frame), Err(TraceError::Os(_))));
    assert!(matches!(
        inferior.backtrace_step(frame, &Some("helper".to_string())),
        Err(TraceError::Os(_))
    ));
    inferior.kill();
}

#[test]
fn frame_pointer_at_the_end_of_the_address_space_is_refused() {
    let pid = spawn_sleeper();
    let Started { mut inferior, .. } = start(pid, &vec![]);
    for fp in [usize::MAX, usize::MAX - 7] {
        let frame = Frame { pc: 0x40_2000, fp };
        assert_eq!(inferior.caller_frame(frame), Err(TraceError::AddressOverflow(fp)));
        assert_eq!(inferior.backtrace_step(frame, &None), Err(TraceError::AddressOverflow(fp)));
    }
    inferior.kill();
}
