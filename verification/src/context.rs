//! Saved supervisor state for kernel threads: the trap-time stack frame,
//! the callee-saved context content placed on a kernel stack, and the
//! one-word context handle that names it.
//!
//! The assembly that pushes these layouts on trap entry and walks them in
//! the context switch lives in the platform layer; this module builds and
//! edits the same values as plain data.

use vstd::prelude::*;

verus! {

/// `sstatus.SIE`: supervisor interrupts enabled now.
pub const SSTATUS_SIE: usize = 0x2;
/// `sstatus.SPIE`: interrupts were enabled before the trap; restored by `sret`.
pub const SSTATUS_SPIE: usize = 0x20;
/// `sstatus.SPP`: privilege before the trap was S-mode; `sret` returns there.
pub const SSTATUS_SPP: usize = 0x100;

/// True iff bit `k` of `x` is set.
pub open spec fn status_bit(x: usize, k: usize) -> bool
    recommends
        k < usize::BITS,
{
    (x >> k) & 1 == 1
}

/// The register file and trap registers pushed by the trap vector on the
/// kernel stack on trap entry; field order is the ABI with the assembly.
pub struct StackFrame {
    /// The 32 general-purpose registers; `reg[2]` is `sp`.
    pub reg: [usize; 32],
    /// S-mode status word at trap time.
    pub sstatus: usize,
    /// PC of the trapping instruction.
    pub sepc: usize,
    /// Auxiliary trap value (fault address or instruction bits).
    pub stval: usize,
    /// Trap cause word.
    pub scause: usize,
}

/// Callee-saved supervisor state for a voluntary switch, plus a synthetic
/// stack frame restored on the thread's very first entry.
pub struct ContextContent {
    /// Where the switch resumes; a fresh thread resumes in the trap-return path.
    pub ra: usize,
    /// Root page-table register value.
    pub satp: usize,
    /// The 12 callee-saved general registers.
    pub s: [usize; 12],
    /// State to restore when the thread is first entered.
    pub sf: StackFrame,
}

/// The status word a fresh kernel thread starts under: previous privilege
/// S-mode, previous-interrupt-enable on, interrupts currently off.
pub open spec fn spec_initial_sstatus(now: usize) -> usize {
    ((now | SSTATUS_SPP | SSTATUS_SPIE) & !SSTATUS_SIE) as usize
}

/// Compute the first-entry status word from the current one: set SPP to
/// Supervisor, set SPIE, clear SIE.
pub fn initial_sstatus(now: usize) -> (r: usize)
    ensures
        r == spec_initial_sstatus(now),
        status_bit(r, 8),
        status_bit(r, 5),
        !status_bit(r, 1),
        forall|k: usize|
            k < usize::BITS && k != 8 && k != 5 && k != 1 ==> #[trigger] status_bit(r, k)
                == status_bit(now, k),
{
    let r = (now | SSTATUS_SPP | SSTATUS_SPIE) & !SSTATUS_SIE;
    proof {
        assert(((((now | 0x100usize | 0x20usize) & !0x2usize) >> 8usize) & 1 == 1) && ((((now
            | 0x100usize | 0x20usize) & !0x2usize) >> 5usize) & 1 == 1) && !((((now | 0x100usize
            | 0x20usize) & !0x2usize) >> 1usize) & 1 == 1)) by (bit_vector);
        assert forall|k: usize|
            k < usize::BITS && k != 8 && k != 5 && k != 1 implies #[trigger] status_bit(
            (now | 0x100usize | 0x20usize) & !0x2usize,
            k,
        ) == status_bit(now, k) by {
            assert((k < 64 && k != 8 && k != 5 && k != 1) ==> ((((now | 0x100usize | 0x20usize)
                & !0x2usize) >> k) & 1 == (now >> k) & 1)) by (bit_vector);
        }
    }
    r
}

impl ContextContent {
    /// The initial state for a new kernel thread: first resume unwinds
    /// through the trap-return path (`ra = trap_ret`) into `entry` in
    /// S-mode with interrupts to be re-enabled by `sret`, on a stack
    /// whose top is `kstack_top`, under page table `satp`.
    ///
    /// `trap_ret` is the address of the trap-return assembly stub and
    /// `sstatus` the current status word; both come from the platform.
    pub fn new_kernel_thread(
        entry: usize,
        kstack_top: usize,
        satp: usize,
        trap_ret: usize,
        sstatus: usize,
    ) -> (r: ContextContent)
        ensures
            r.ra == trap_ret,
            r.satp == satp,
            forall|k: int| 0 <= k < 12 ==> r.s[k] == 0,
            r.sf.reg[2] == kstack_top,
            forall|k: int| 0 <= k < 32 && k != 2 ==> r.sf.reg[k] == 0,
            r.sf.sepc == entry,
            r.sf.sstatus == spec_initial_sstatus(sstatus),
            r.sf.stval == 0,
            r.sf.scause == 0,
    {
        let mut reg = [0usize; 32];
        reg[2] = kstack_top;
        ContextContent {
            ra: trap_ret,
            satp,
            s: [0usize; 12],
            sf: StackFrame {
                reg,
                sstatus: initial_sstatus(sstatus),
                sepc: entry,
                stval: 0,
                scause: 0,
            },
        }
    }

    /// Write the three initial argument values into the argument-register
    /// slots (`a0`-`a2`) of the synthetic stack frame; they take effect on
    /// the thread's first entry.
    pub fn append_initial_arguments(&mut self, args: [usize; 3])
        ensures
            final(self).sf.reg[10] == args[0],
            final(self).sf.reg[11] == args[1],
            final(self).sf.reg[12] == args[2],
            forall|k: int|
                0 <= k < 32 && !(10 <= k < 13) ==> final(self).sf.reg[k] == old(self).sf.reg[k],
            final(self).ra == old(self).ra,
            final(self).satp == old(self).satp,
            final(self).s == old(self).s,
            final(self).sf.sstatus == old(self).sf.sstatus,
            final(self).sf.sepc == old(self).sf.sepc,
            final(self).sf.stval == old(self).sf.stval,
            final(self).sf.scause == old(self).sf.scause,
    {
        self.sf.reg[10] = args[0];
        self.sf.reg[11] = args[1];
        self.sf.reg[12] = args[2];
    }
}

/// A one-word handle: the address of the currently saved context content
/// on the owning thread's kernel stack. Address 0 is the bootstrap
/// context, whose saved state is written once and never read back.
pub struct Context {
    /// Address of the saved `ContextContent`, or 0 for the bootstrap context.
    pub content_addr: usize,
}

impl Context {
    /// The bootstrap (null) context handle.
    pub fn null() -> (r: Context)
        ensures
            r.content_addr == 0,
    {
        Context { content_addr: 0 }
    }
}

} // verus!
