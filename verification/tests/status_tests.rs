use inferior::{
    is_entry_function, translate, State, Status, TraceError, WaitOutcome, ENTRY_FUNCTION, SIGKILL,
    SIGTRAP,
};

#[test]
fn signal_numbers_are_those_of_the_platform() {
    assert_eq!(SIGTRAP, nix::sys::signal::Signal::SIGTRAP as i32);
    assert_eq!(SIGKILL, nix::sys::signal::Signal::SIGKILL as i32);
}

#[test]
fn exit_is_reported_with_its_code() {
    assert_eq!(translate(WaitOutcome::Exited(0), 0x1234), Ok(Status::Exited(0)));
    assert_eq!(translate(WaitOutcome::Exited(3), 0), Ok(Status::Exited(3)));
}

#[test]
fn end_by_signal_is_reported_with_the_signal() {
    assert_eq!(translate(WaitOutcome::Signaled(SIGKILL, false), 0x1234), Ok(Status::Signaled(9)));
    assert_eq!(translate(WaitOutcome::Signaled(11, true), 0), Ok(Status::Signaled(11)));
}

#[test]
fn stop_is_reported_with_signal_and_program_counter() {
    assert_eq!(
        translate(WaitOutcome::Stopped(SIGTRAP), 0x401137),
        Ok(Status::Stopped(5, 0x401137))
    );
    assert_eq!(translate(WaitOutcome::Stopped(19), 0), Ok(Status::Stopped(19, 0)));
}

#[test]
fn other_categories_are_the_fatal_error() {
    let others = [
        WaitOutcome::PtraceEvent(SIGTRAP, 4),
        WaitOutcome::PtraceSyscall,
        WaitOutcome::Continued,
        WaitOutcome::StillAlive,
    ];
    for outcome in others {
        assert_eq!(translate(outcome, 0x1000), Err(TraceError::UnexpectedWaitStatus(outcome)));
    }
}

#[test]
fn event_settles_the_state() {
    assert_eq!(State::settled(Status::Stopped(SIGTRAP, 0x401137)), State::StoppedOther);
    assert_eq!(State::settled(Status::Exited(7)), State::Exited(7));
    assert_eq!(State::settled(Status::Signaled(SIGKILL)), State::Signaled(9));
}

#[test]
fn only_a_process_that_is_gone_has_a_termination() {
    assert_eq!(State::Running.termination(), None);
    assert_eq!(State::StoppedOther.termination(), None);
    assert_eq!(State::StoppedAtBreakpoint(0x401136).termination(), None);
    assert_eq!(State::Exited(2).termination(), Some(Status::Exited(2)));
    assert_eq!(State::Signaled(9).termination(), Some(Status::Signaled(9)));
}

#[test]
fn entry_function_is_main() {
    assert_eq!(ENTRY_FUNCTION, "main");
    assert!(is_entry_function(&"main".to_string()));
    assert!(!is_entry_function(&"Main".to_string()));
    assert!(!is_entry_function(&"main2".to_string()));
    assert!(!is_entry_function(&"".to_string()));
    assert!(!is_entry_function(&"Unable to get function name".to_string()));
}
