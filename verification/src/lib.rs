//! Control of one traced process: starting it, installing breakpoints in
//! it, continuing it from stop to stop and past its breakpoints, ending it,
//! and walking its call stack.
//!
//! The modules, leaves first:
//!
//! - `word`: the arithmetic of reading, changing and writing one byte
//!   inside a machine word;
//! - `breakpoint`: the table from breakpoint address to original byte;
//! - `status`: events, states and errors, and the translation of an answer
//!   to a wait;
//! - `registers`: the register snapshot;
//! - `sys`: the requests made of the operating system, which are not
//!   verified and of whose answers nothing is assumed;
//! - `history`: the record of those requests, kept for the contracts;
//! - `replay`: what each operation of the controller asks for and returns,
//!   stated over the history;
//! - `inferior`: the controller itself;
//! - `backtrace`: the walk from frame to calling frame;
//! - `laws`: what is proved of the operations as a whole.

pub mod backtrace;
pub mod breakpoint;
pub mod history;
pub mod inferior;
pub mod laws;
pub mod registers;
pub mod replay;
pub mod status;
pub mod sys;
pub mod word;

pub use crate::backtrace::{is_entry_function, Frame, ENTRY_FUNCTION};
pub use crate::breakpoint::{Breakpoint, BreakpointTable};
pub use crate::inferior::{Inferior, StartFailure, Started};
pub use crate::status::{
    translate, Killed, StartError, State, Status, TraceError, WaitMode, WaitOutcome,
};
pub use crate::status::{SIGKILL, SIGTRAP};
pub use crate::registers::Registers;
pub use crate::word::{align_addr_to_word, byte_offset, extract_byte, replace_byte};
pub use crate::word::{TRAP_OPCODE, WORD_SIZE};
