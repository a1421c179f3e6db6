//! The table of installed breakpoints.
//!
//! A breakpoint remembers the byte that stood at its address before the
//! trap opcode was written there. The table maps each address to its
//! breakpoint; seen from outside it is a map from address to original byte.
//! An address is recorded once: recording it again leaves the byte that was
//! saved first.

use crate::status::{Status, SIGTRAP};
use std::collections::HashMap;
use vstd::prelude::*;

verus! {

broadcast use vstd::std_specs::hash::group_hash_axioms;

/// A software breakpoint.
#[derive(Clone, Copy, Debug, PartialEq, Eq, Structural)]
pub struct Breakpoint {
    /// The address, in the traced process, where the trap opcode stands.
    pub addr: usize,
    /// The byte that stood at `addr` before the trap opcode was written.
    pub orig_byte: u8,
}

/// The installed breakpoints, by address.
pub struct BreakpointTable {
    entries: HashMap<usize, Breakpoint>,
}

impl View for BreakpointTable {
    type V = Map<usize, u8>;

    /// The original byte of each address that has a breakpoint.
    closed spec fn view(&self) -> Map<usize, u8> {
        self.entries@.map_values(|b: Breakpoint| b.orig_byte)
    }
}

impl BreakpointTable {
    /// Every entry is filed under its own address.
    pub closed spec fn wf(&self) -> bool {
        forall|addr: usize| #[trigger]
            self.entries@.contains_key(addr) ==> self.entries@[addr].addr == addr
    }

    /// A table without breakpoints.
    pub fn new() -> (table: BreakpointTable)
        ensures
            table.wf(),
            table@ == Map::<usize, u8>::empty(),
    {
        let table = BreakpointTable { entries: HashMap::new() };
        assert(table@ =~= Map::<usize, u8>::empty());
        table
    }

    /// Whether there is a breakpoint at `addr`.
    pub fn is_breakpoint(&self, addr: usize) -> (found: bool)
        ensures
            found == self@.contains_key(addr),
    {
        self.entries.contains_key(&addr)
    }

    /// The breakpoint at `addr`, if there is one.
    pub fn lookup(&self, addr: usize) -> (found: Option<Breakpoint>)
        requires
            self.wf(),
        ensures
            found == (if self@.contains_key(addr) {
                Some((Breakpoint { addr, orig_byte: self@[addr] }))
            } else {
                None
            }),
    {
        match self.entries.get(&addr) {
            Some(breakpoint) => Some(*breakpoint),
            None => None,
        }
    }

    /// The breakpoint whose trap `event` reports, if it reports one.
    pub fn hit_by(&self, event: Status) -> (hit: Option<usize>)
        ensures
            hit == breakpoint_hit(self@, event),
    {
        match event {
            Status::Stopped(signal, pc) => {
                if signal == SIGTRAP && pc >= 1 && self.is_breakpoint(pc - 1) {
                    Some(pc - 1)
                } else {
                    None
                }
            },
            _ => None,
        }
    }

    /// Records that the byte `orig_byte` was overwritten by a trap at `addr`.
    /// An address that is already recorded keeps the byte saved for it.
    pub fn record(&mut self, addr: usize, orig_byte: u8)
        requires
            old(self).wf(),
        ensures
            final(self).wf(),
            final(self)@ == recorded(old(self)@, addr, orig_byte),
    {
        if !self.entries.contains_key(&addr) {
            self.entries.insert(addr, Breakpoint { addr, orig_byte });
            assert(self@ =~= old(self)@.insert(addr, orig_byte));
        }
    }
}

/// The breakpoint whose trap `event` reports, if it reports one: the event
/// is a stop on the trap signal, and the byte before the program counter is
/// the address of a breakpoint. The trap opcode is one byte long, so a
/// process that ran into it is halted one byte past it.
pub open spec fn breakpoint_hit(table: Map<usize, u8>, event: Status) -> Option<usize> {
    match event {
        Status::Stopped(signal, pc) => if signal == SIGTRAP && pc >= 1 && table.contains_key(
            (pc - 1) as usize,
        ) {
            Some((pc - 1) as usize)
        } else {
            None
        },
        _ => None,
    }
}

/// The table `table` after `orig_byte` has been recorded for `addr`.
pub open spec fn recorded(table: Map<usize, u8>, addr: usize, orig_byte: u8) -> Map<usize, u8> {
    if table.contains_key(addr) {
        table
    } else {
        table.insert(addr, orig_byte)
    }
}

/// Recording an address a second time changes nothing, whatever byte the
/// second recording brings: the byte saved first stays.
pub proof fn lemma_record_twice(table: Map<usize, u8>, addr: usize, first: u8, second: u8)
    ensures
        recorded(recorded(table, addr, first), addr, second) == recorded(table, addr, first),
        !table.contains_key(addr) ==> recorded(recorded(table, addr, first), addr, second)[addr]
            == first,
{
}

} // verus!
