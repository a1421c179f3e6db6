//! What holds of the controller, whatever the traced process does.
//!
//! The operations of the controller are described by their replays. The
//! laws here are proved of those replays, and so of every history that an
//! operation can leave. Some of them speak of the memory of the process.
//! The controller sees that memory only through the words it reads and
//! writes, so memory is modelled as a map from address to word, changed by
//! the writes that succeed; a law that speaks of it asks that the reads in
//! the history were answered from it. That holds of the real memory for as
//! long as the process stays stopped.

use crate::breakpoint::breakpoint_hit;
use crate::history::{
    registers_at, resume_at, set_registers_at, step_at, wait_at, Exchange,
};
use crate::replay::{
    gives, leaves, replay_continue, replay_install, replay_installs, replay_kill, replay_patch,
    replay_set_pc, replay_step_over, replay_wait, settle, Installed, Run,
};
use crate::status::{Killed, State, Status, TraceError, WaitMode, WaitOutcome, SIGTRAP};
use crate::registers::Registers;
use crate::word::{byte_index, byte_of, lemma_with_byte, with_byte, word_base, TRAP_OPCODE};
use vstd::prelude::*;

verus! {

/// The byte at `addr` in the memory `mem`.
pub open spec fn byte_in(mem: Map<usize, u64>, addr: usize) -> u8 {
    byte_of(mem[word_base(addr)], byte_index(addr))
}

/// The memory `mem` after the exchange `e`: a write that succeeded has
/// stored its word, and nothing else changes memory.
pub open spec fn after_exchange(mem: Map<usize, u64>, e: Exchange) -> Map<usize, u64> {
    match e {
        Exchange::Poke { addr, word, answer: Ok(_) } => mem.insert(addr, word),
        _ => mem,
    }
}

/// The memory `mem` after the exchanges of `h` from position `from` up to,
/// and without, position `to`.
pub open spec fn after_exchanges(mem: Map<usize, u64>, h: Seq<Exchange>, from: int, to: int) -> Map<
    usize,
    u64,
>
    decreases to - from,
{
    if to <= from {
        mem
    } else {
        after_exchange(after_exchanges(mem, h, from, to - 1), h[to - 1])
    }
}

/// The exchange `e` is no read, or a read that failed, or a read that was
/// answered with the word that `mem` holds.
pub open spec fn answered_from(mem: Map<usize, u64>, e: Exchange) -> bool {
    e matches Exchange::Peek { addr, answer: Ok(word) } ==> mem.contains_key(addr) && mem[addr]
        == word
}

/// Every read among the exchanges of `h` from `from` up to `to` was
/// answered from the memory that `mem` had become by then.
pub open spec fn reads_agree(mem: Map<usize, u64>, h: Seq<Exchange>, from: int, to: int) -> bool {
    forall|i: int|
        from <= i < to ==> answered_from(#[trigger] after_exchanges(mem, h, from, i), h[i])
}

/// A replacement of one byte changes that byte of the memory and no other.
///
/// Where the replacement of the byte at `addr` by `val` succeeds and its
/// read was answered from the memory `mem`, the memory afterwards holds
/// `val` at `addr`, the byte returned is the one that `mem` held there,
/// and the byte at every other address `other` is what it was.
pub proof fn lemma_patch_changes_one_byte(
    mem: Map<usize, u64>,
    h: Seq<Exchange>,
    at: int,
    addr: usize,
    val: u8,
    other: usize,
)
    requires
        replay_patch(h, at, addr, val) matches Some(patch) && patch.value is Ok,
        reads_agree(mem, h, at, at + 2),
    ensures
        replay_patch(h, at, addr, val)->0.end == at + 2,
        replay_patch(h, at, addr, val)->0.value == Ok::<u8, TraceError>(byte_in(mem, addr)),
        byte_in(after_exchanges(mem, h, at, at + 2), addr) == val,
        other != addr ==> byte_in(after_exchanges(mem, h, at, at + 2), other) == byte_in(mem, other),
        after_exchanges(mem, h, at, at + 2).dom() == mem.dom(),
{
    reveal_with_fuel(after_exchanges, 3);
    let base = word_base(addr);
    let k = byte_index(addr);
    assert(answered_from(after_exchanges(mem, h, at, at), h[at]));
    let word = mem[base];
    lemma_with_byte(word, k, val);
    let after = after_exchanges(mem, h, at, at + 2);
    assert(after == mem.insert(base, with_byte(word, k, val)));
    assert(after.dom() =~= mem.dom());
    if other != addr && word_base(other) == base {
        assert(byte_index(other) != k);
    }
}

/// A breakpoint that is installed anew stands in the memory of the process
/// as the trap opcode, and the table holds for it the byte that the memory
/// held there before.
///
/// Where the installation of a breakpoint at `addr`, which had none,
/// succeeds and its read was answered from the memory `mem`, the table
/// afterwards maps `addr` to the byte that `mem` held there, and the memory
/// afterwards holds the trap opcode there and at every other address
/// `other` what it held before.
pub proof fn lemma_install_saves_original(
    mem: Map<usize, u64>,
    h: Seq<Exchange>,
    at: int,
    table: Map<usize, u8>,
    addr: usize,
    other: usize,
)
    requires
        !table.contains_key(addr),
        replay_install(h, at, table, addr) matches Some(done) && done.value.result is Ok,
        reads_agree(mem, h, at, at + 2),
    ensures
        replay_install(h, at, table, addr)->0.end == at + 2,
        replay_install(h, at, table, addr)->0.value.table == table.insert(addr, byte_in(mem, addr)),
        byte_in(after_exchanges(mem, h, at, at + 2), addr) == TRAP_OPCODE,
        other != addr ==> byte_in(after_exchanges(mem, h, at, at + 2), other) == byte_in(mem, other),
{
    lemma_patch_changes_one_byte(mem, h, at, addr, TRAP_OPCODE, other);
}

/// An event that reports the trap of the breakpoint at `bp` is returned
/// with `bp` as its program counter, not the address one byte past it, and
/// leaves the process halted at `bp`. Every other run is left as it is.
pub proof fn lemma_settle(table: Map<usize, u8>, run: Run<Result<Status, TraceError>>, bp: usize)
    ensures
        run.value == Ok::<Status, TraceError>(Status::Stopped(SIGTRAP, (bp + 1) as usize))
            && table.contains_key(bp) && bp < usize::MAX ==> settle(table, run) == (Run {
            value: Ok::<Status, TraceError>(Status::Stopped(SIGTRAP, bp)),
            state: State::StoppedAtBreakpoint(bp),
            end: run.end,
        }),
        (run.value matches Ok(event) ==> breakpoint_hit(table, event) is None) ==> settle(
            table,
            run,
        ) == run,
{
}

/// A process that runs into a breakpoint is reported stopped at the
/// address of that breakpoint, by the continuation that resumed it and
/// after a single wait.
///
/// Where a live process that is not halted at a breakpoint is continued,
/// the resumption succeeds, the wait reports a stop on the trap signal and
/// the registers show the program counter one byte past the breakpoint at
/// `bp`, the continuation returns a stop on the trap signal at `bp` and
/// leaves the process halted at `bp`, having asked for nothing more.
pub proof fn lemma_continue_reports_breakpoint(
    h: Seq<Exchange>,
    at: int,
    table: Map<usize, u8>,
    state: State,
    bp: usize,
    regs: Registers,
)
    requires
        state is Running || state is StoppedOther,
        table.contains_key(bp),
        bp < usize::MAX,
        resume_at(h, at) == Some(Ok::<(), nix::Error>(())),
        wait_at(h, at + 1, WaitMode::Blocking) == Some(
            Ok::<WaitOutcome, nix::Error>(WaitOutcome::Stopped(SIGTRAP)),
        ),
        registers_at(h, at + 2) == Some(Ok::<Registers, nix::Error>(regs)),
        regs.pc as usize == bp + 1,
    ensures
        leaves(
            replay_continue(h, at, table, state),
            Ok::<Status, TraceError>(Status::Stopped(SIGTRAP, bp)),
            State::StoppedAtBreakpoint(bp),
            at + 3,
        ),
{
}

/// An event that is not the trap of a breakpoint is returned as the wait
/// reported it.
///
/// Where a live process that is not halted at a breakpoint is continued
/// and the wait after the resumption reports `event`, which does not
/// report the trap of a breakpoint, the continuation returns `event`.
pub proof fn lemma_continue_returns_other_events(
    h: Seq<Exchange>,
    at: int,
    table: Map<usize, u8>,
    state: State,
    event: Status,
)
    requires
        state is Running || state is StoppedOther,
        resume_at(h, at) == Some(Ok::<(), nix::Error>(())),
        replay_wait(h, at + 1, State::Running, WaitMode::Blocking) matches Some(waited)
            && waited.value == Ok::<Status, TraceError>(event),
        breakpoint_hit(table, event) is None,
    ensures
        replay_continue(h, at, table, state) == replay_wait(
            h,
            at + 1,
            State::Running,
            WaitMode::Blocking,
        ),
{
}

/// How far a step over a breakpoint has come, by the position at which
/// it ends: one that ends more than four requests after its start has
/// asked for the single step, and that after moving the program counter
/// back to the breakpoint and putting the original byte back; one that
/// ends more than nine requests after its start has resumed the process,
/// and that after writing the trap opcode again. The program counter is
/// moved in the process, not only in a copy of its registers: the
/// registers that were read are written back, with the address of the
/// breakpoint as program counter and nothing else changed.
pub proof fn lemma_step_over_order(
    h: Seq<Exchange>,
    at: int,
    table: Map<usize, u8>,
    state: State,
    bp: usize,
)
    requires
        replay_step_over(h, at, table, state, bp) is Some,
    ensures
        ({
            let run = replay_step_over(h, at, table, state, bp)->0;
            &&& at <= run.end
            &&& run.end > at ==> table.contains_key(bp)
            &&& run.end > at + 4 ==> {
                &&& gives(replay_set_pc(h, at, bp), Ok::<(), TraceError>(()), at + 2)
                &&& registers_at(h, at) matches Some(Ok(regs)) && set_registers_at(
                    h,
                    at + 1,
                    regs.moved_to(bp),
                ) == Some(Ok::<(), nix::Error>(()))
                &&& replay_patch(h, at + 2, bp, table[bp]) matches Some(restore)
                &&& restore.value is Ok
                &&& restore.end == at + 4
                &&& step_at(h, at + 4) is Some
            }
            &&& run.end > at + 9 ==> {
                &&& replay_patch(h, at + 7, bp, TRAP_OPCODE) matches Some(rearm)
                &&& rearm.value is Ok
                &&& rearm.end == at + 9
                &&& resume_at(h, at + 9) is Some
            }
        }),
{
}

/// During a step over the breakpoint at `bp` the memory of the process
/// holds the original byte at `bp` while the single step is made, and the
/// trap opcode again when the process is resumed; no other byte is changed
/// by the controller.
///
/// `halted` is the memory when the step over starts, `stepped` the memory
/// when the process has stopped after the single step. The step over has
/// come as far as resuming the process, and the reads it made while the
/// process was stopped were answered from those memories. Then, with the
/// writes made up to the request for the single step, `halted` holds the
/// original byte at `bp`; with the writes made from the stop up to the
/// request to resume, `stepped` holds the trap opcode at `bp`; and at any
/// other address `other` both hold what they held before.
pub proof fn lemma_step_over_memory(
    h: Seq<Exchange>,
    at: int,
    table: Map<usize, u8>,
    state: State,
    bp: usize,
    halted: Map<usize, u64>,
    stepped: Map<usize, u64>,
    other: usize,
)
    requires
        replay_step_over(h, at, table, state, bp) matches Some(run) && run.end > at + 9,
        reads_agree(halted, h, at + 2, at + 4),
        reads_agree(stepped, h, at + 7, at + 9),
    ensures
        step_at(h, at + 4) is Some,
        byte_in(after_exchanges(halted, h, at + 2, at + 4), bp) == table[bp],
        other != bp ==> byte_in(after_exchanges(halted, h, at + 2, at + 4), other) == byte_in(
            halted,
            other,
        ),
        resume_at(h, at + 9) is Some,
        byte_in(after_exchanges(stepped, h, at + 7, at + 9), bp) == TRAP_OPCODE,
        other != bp ==> byte_in(after_exchanges(stepped, h, at + 7, at + 9), other) == byte_in(
            stepped,
            other,
        ),
{
    lemma_step_over_order(h, at, table, state, bp);
    lemma_patch_changes_one_byte(halted, h, at + 2, bp, table[bp], other);
    lemma_patch_changes_one_byte(stepped, h, at + 7, bp, TRAP_OPCODE, other);
}

/// Installing a breakpoint where one is installed already asks nothing of
/// the process and leaves the table, and with it the original byte that
/// was recorded first, as it is.
pub proof fn lemma_install_again(h: Seq<Exchange>, at: int, table: Map<usize, u8>, addr: usize)
    requires
        table.contains_key(addr),
    ensures
        gives(replay_install(h, at, table, addr), (Installed { result: Ok(()), table }), at),
{
}

/// A second installation at the same address, right after a first one
/// that succeeded, changes nothing: the table keeps the byte that the
/// first installation recorded.
pub proof fn lemma_install_twice(
    h: Seq<Exchange>,
    at: int,
    table: Map<usize, u8>,
    addr: usize,
    later: Seq<Exchange>,
)
    requires
        replay_install(h, at, table, addr) matches Some(first) && first.value.result is Ok,
    ensures
        ({
            let first = replay_install(h, at, table, addr)->0;
            &&& first.value.table.contains_key(addr)
            &&& gives(
                replay_install(later, first.end, first.value.table, addr),
                (Installed { result: Ok(()), table: first.value.table }),
                first.end,
            )
        }),
{
}

/// After a row of installations the table holds what it held before, with
/// the bytes it held, and besides that exactly the addresses whose
/// installation succeeded: a failed installation records nothing, and no
/// installation changes a byte that was recorded earlier.
pub proof fn lemma_installs_table(
    h: Seq<Exchange>,
    at: int,
    table: Map<usize, u8>,
    addrs: Seq<usize>,
    addr: usize,
)
    requires
        replay_installs(h, at, table, addrs) is Some,
    ensures
        ({
            let (after, results) = replay_installs(h, at, table, addrs)->0.value;
            &&& results.len() == addrs.len()
            &&& after.contains_key(addr) <==> table.contains_key(addr) || exists|i: int|
                0 <= i < addrs.len() && addrs[i] == addr && #[trigger] results[i] is Ok
            &&& table.contains_key(addr) ==> after[addr] == table[addr]
        }),
    decreases addrs.len(),
{
    if addrs.len() > 0 {
        let front = addrs.drop_last();
        lemma_installs_table(h, at, table, front, addr);
        let before = replay_installs(h, at, table, front)->0;
        let (mid, front_results) = before.value;
        let (after, results) = replay_installs(h, at, table, addrs)->0.value;
        let last = addrs.len() - 1;
        assert(forall|i: int| 0 <= i < last ==> results[i] == front_results[i] && addrs[i] == front[i]);
        if after.contains_key(addr) && !table.contains_key(addr) {
            if mid.contains_key(addr) {
                let i = choose|i: int|
                    0 <= i < front.len() && front[i] == addr && #[trigger] front_results[i] is Ok;
                assert(addrs[i] == addr && results[i] is Ok);
            } else {
                assert(addrs[last] == addr && results[last] is Ok);
            }
        }
    }
}

/// A process that is gone stays gone, and is asked nothing: a wait, a
/// continuation and a kill each report its last event again and leave the
/// history as it is.
pub proof fn lemma_gone_is_left_alone(
    h: Seq<Exchange>,
    at: int,
    table: Map<usize, u8>,
    state: State,
    mode: WaitMode,
)
    requires
        state.is_terminal(),
    ensures
        state.last_event() is Some,
        leaves(
            replay_wait(h, at, state, mode),
            Ok::<Status, TraceError>(state.last_event()->0),
            state,
            at,
        ),
        leaves(
            replay_continue(h, at, table, state),
            Ok::<Status, TraceError>(state.last_event()->0),
            state,
            at,
        ),
        leaves(
            replay_kill(h, at, state),
            (Killed { signal: None, reaped: Ok(state.last_event()->0) }),
            state,
            at,
        ),
{
}

/// After a kill whose wait reported the end of the process, a wait asks
/// nothing and reports that end again.
pub proof fn lemma_wait_after_kill(
    h: Seq<Exchange>,
    at: int,
    state: State,
    later: Seq<Exchange>,
    mode: WaitMode,
)
    requires
        replay_kill(h, at, state) matches Some(killed) && killed.value.reaped matches Ok(event)
            && event.is_terminal(),
    ensures
        ({
            let killed = replay_kill(h, at, state)->0;
            leaves(
                replay_wait(later, killed.end, killed.state, mode),
                killed.value.reaped,
                killed.state,
                killed.end,
            )
        }),
{
}

} // verus!
