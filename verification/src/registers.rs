//! The registers of the stopped process.
//!
//! A snapshot is a copy. Changing it changes nothing in the process until
//! the snapshot is written back, and it says nothing of the process once the
//! process has run again.

use vstd::prelude::*;

verus! {

/// A snapshot of the registers of the stopped process: the two that the
/// controller reads and changes, and the whole set they were taken from.
#[derive(Clone, Copy, Debug)]
pub struct Registers {
    /// The program counter.
    pub pc: u64,
    /// The frame pointer, which points at the saved frame pointer of the caller.
    pub fp: u64,
    /// The register set that the snapshot was taken from.
    pub raw: nix::libc::user_regs_struct,
}

impl Registers {
    /// This snapshot with the program counter moved to `pc`.
    pub open spec fn moved_to(self, pc: usize) -> Registers {
        Registers { pc: pc as u64, fp: self.fp, raw: self.raw }
    }

    /// This snapshot with the program counter moved to `pc`.
    pub fn with_pc(self, pc: usize) -> (moved: Registers)
        ensures
            moved == self.moved_to(pc),
    {
        Registers { pc: pc as u64, fp: self.fp, raw: self.raw }
    }
}

} // verus!
