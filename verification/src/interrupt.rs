//! Trap handling decisions: classify a trap cause, advance past a
//! breakpoint, and keep the timer tick count.
//!
//! The trap vector assembly, the control/status register reads, and the
//! SBI timer call live in the platform layer; it reads `scause`, calls
//! `classify_trap`, and acts on the answer as the handlers here decide.

use vstd::prelude::*;

verus! {

/// Cycles between two timer interrupts.
pub const TIMEBASE: u64 = 100000;

/// Ticks between two tick reports on the console.
pub const TICKS_PER_REPORT: usize = 100;

/// Exception code of a breakpoint trap.
pub const CAUSE_BREAKPOINT: usize = 3;
/// Interrupt code of a supervisor timer interrupt.
pub const CAUSE_SUPERVISOR_TIMER: usize = 5;
/// Exception code of an instruction page fault.
pub const CAUSE_INSTRUCTION_PAGE_FAULT: usize = 12;
/// Exception code of a load page fault.
pub const CAUSE_LOAD_PAGE_FAULT: usize = 13;
/// Exception code of a store page fault.
pub const CAUSE_STORE_PAGE_FAULT: usize = 15;

/// The trap causes this kernel distinguishes. `Unknown` is fatal, as is
/// `PageFault`: no fault isolation exists in this core.
#[derive(Clone, Copy, PartialEq, Eq, Structural, Debug)]
pub enum TrapKind {
    /// An `ebreak` executed in S-mode; logged, then skipped over.
    Breakpoint,
    /// The supervisor timer fired; drives preemption.
    SupervisorTimer,
    /// An instruction, load or store page fault; fatal.
    PageFault,
    /// Any other cause; fatal.
    Unknown,
}

/// Classify a trap from the interrupt bit and the cause code of
/// `scause`.
pub fn classify_trap(is_interrupt: bool, code: usize) -> (r: TrapKind)
    ensures
        (r is Breakpoint) <==> (!is_interrupt && code == CAUSE_BREAKPOINT),
        (r is SupervisorTimer) <==> (is_interrupt && code == CAUSE_SUPERVISOR_TIMER),
        (r is PageFault) <==> (!is_interrupt && (code == CAUSE_INSTRUCTION_PAGE_FAULT || code
            == CAUSE_LOAD_PAGE_FAULT || code == CAUSE_STORE_PAGE_FAULT)),
{
    if is_interrupt {
        if code == CAUSE_SUPERVISOR_TIMER {
            TrapKind::SupervisorTimer
        } else {
            TrapKind::Unknown
        }
    } else {
        if code == CAUSE_BREAKPOINT {
            TrapKind::Breakpoint
        } else if code == CAUSE_INSTRUCTION_PAGE_FAULT || code == CAUSE_LOAD_PAGE_FAULT || code
            == CAUSE_STORE_PAGE_FAULT {
            TrapKind::PageFault
        } else {
            TrapKind::Unknown
        }
    }
}

/// Breakpoint handler: advance the trap PC past the 2-byte compressed
/// `ebreak` so the thread resumes at the next instruction.
pub fn breakpoint(sepc: &mut usize)
    requires
        *old(sepc) + 2 <= usize::MAX,
    ensures
        *final(sepc) == *old(sepc) + 2,
{
    *sepc = *sepc + 2;
}

/// Timer bookkeeping on each tick: count the tick, wrapping at
/// `TICKS_PER_REPORT`. Returns the new count and whether the count just
/// wrapped, which is exactly when the platform prints one tick report.
pub fn timer_tick(ticks: usize) -> (r: (usize, bool))
    requires
        ticks < TICKS_PER_REPORT,
    ensures
        r.1 == (ticks + 1 == TICKS_PER_REPORT),
        r.0 == if ticks + 1 == TICKS_PER_REPORT {
            0usize
        } else {
            (ticks + 1) as usize
        },
        r.0 < TICKS_PER_REPORT,
{
    let next = ticks + 1;
    if next == TICKS_PER_REPORT {
        (0, true)
    } else {
        (next, false)
    }
}

/// The next timer deadline: the current cycle count plus `TIMEBASE`.
/// The platform reads `time` and passes the result to SBI `set_timer`.
pub fn next_deadline(now: u64) -> (r: u64)
    requires
        now + TIMEBASE <= u64::MAX,
    ensures
        r == now + TIMEBASE,
{
    now + TIMEBASE
}

} // verus!
