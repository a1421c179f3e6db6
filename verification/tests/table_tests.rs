use inferior::{Breakpoint, BreakpointTable, Status, SIGTRAP};

#[test]
fn new_table_has_no_breakpoints() {
    let table = BreakpointTable::new();
    assert!(!table.is_breakpoint(0));
    assert!(!table.is_breakpoint(0x401136));
    assert_eq!(table.lookup(0x401136), None);
}

#[test]
fn recorded_breakpoint_is_found_with_its_byte() {
    let mut table = BreakpointTable::new();
    table.record(0x401136, 0x55);
    assert!(table.is_breakpoint(0x401136));
    assert_eq!(table.lookup(0x401136), Some(Breakpoint { addr: 0x401136, orig_byte: 0x55 }));
    assert!(!table.is_breakpoint(0x401137));
    assert_eq!(table.lookup(0x401135), None);
}

#[test]
fn recording_twice_keeps_the_first_byte() {
    let mut table = BreakpointTable::new();
    table.record(0x401136, 0x55);
    table.record(0x401136, 0xcc);
    assert_eq!(table.lookup(0x401136), Some(Breakpoint { addr: 0x401136, orig_byte: 0x55 }));
}

#[test]
fn breakpoints_are_kept_apart_by_address() {
    let mut table = BreakpointTable::new();
    table.record(0x1000, 0x48);
    table.record(0x1001, 0x89);
    table.record(0x2000, 0xc3);
    assert_eq!(table.lookup(0x1000).unwrap().orig_byte, 0x48);
    assert_eq!(table.lookup(0x1001).unwrap().orig_byte, 0x89);
    assert_eq!(table.lookup(0x2000).unwrap().orig_byte, 0xc3);
}

#[test]
fn trap_one_byte_past_a_breakpoint_is_a_hit() {
    let mut table = BreakpointTable::new();
    table.record(0x401136, 0x55);
    assert_eq!(table.hit_by(Status::Stopped(SIGTRAP, 0x401137)), Some(0x401136));
}

#[test]
fn trap_at_the_breakpoint_itself_is_no_hit() {
    let mut table = BreakpointTable::new();
    table.record(0x401136, 0x55);
    assert_eq!(table.hit_by(Status::Stopped(SIGTRAP, 0x401136)), None);
    assert_eq!(table.hit_by(Status::Stopped(SIGTRAP, 0x401138)), None);
}

#[test]
fn stop_on_another_signal_is_no_hit() {
    let mut table = BreakpointTable::new();
    table.record(0x401136, 0x55);
    assert_eq!(table.hit_by(Status::Stopped(11, 0x401137)), None);
    assert_eq!(table.hit_by(Status::Stopped(19, 0x401137)), None);
}

#[test]
fn end_of_the_process_is_no_hit() {
    let mut table = BreakpointTable::new();
    table.record(0x401136, 0x55);
    assert_eq!(table.hit_by(Status::Exited(0)), None);
    assert_eq!(table.hit_by(Status::Signaled(SIGTRAP)), None);
}

#[test]
fn trap_at_address_zero_is_no_hit() {
    let mut table = BreakpointTable::new();
    table.record(usize::MAX, 0x90);
    table.record(0, 0x90);
    assert_eq!(table.hit_by(Status::Stopped(SIGTRAP, 0)), None);
    assert_eq!(table.hit_by(Status::Stopped(SIGTRAP, 1)), Some(0));
}
