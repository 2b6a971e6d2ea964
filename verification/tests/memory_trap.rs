use os::context::{initial_sstatus, Context, ContextContent};
use os::frame_allocator::SegFrameAlloc;
use os::interrupt::{breakpoint, classify_trap, next_deadline, timer_tick, TrapKind, TIMEBASE};

#[test]
fn frame_allocator_lowest_first() {
    let mut alloc = SegFrameAlloc::new();
    alloc.init(10, 13);
    assert_eq!(alloc.alloc_page(), Some(10));
    assert_eq!(alloc.alloc_page(), Some(11));
    assert_eq!(alloc.alloc_page(), Some(12));
    assert_eq!(alloc.alloc_page(), None);
}

#[test]
fn frame_allocator_exact_capacity_and_reuse() {
    // With M pages free, alloc succeeds exactly M times then reports
    // exhaustion; after freeing the most recent frame, the next alloc
    // returns that same frame.
    let mut alloc = SegFrameAlloc::new();
    let (l, r) = (100usize, 105usize);
    alloc.init(l, r);
    let mut last = 0;
    for i in l..r {
        let f = alloc.alloc_page().expect("a page is free");
        assert_eq!(f, i);
        last = f;
    }
    assert_eq!(alloc.alloc_page(), None);
    alloc.dealloc(last);
    assert_eq!(alloc.alloc_page(), Some(last));
}

#[test]
fn frame_allocator_dealloc_lower_page_wins() {
    let mut alloc = SegFrameAlloc::new();
    alloc.init(50, 54);
    let a = alloc.alloc_page().unwrap();
    let b = alloc.alloc_page().unwrap();
    assert_eq!((a, b), (50, 51));
    alloc.dealloc(a);
    // The freed lower page is handed out before the untouched higher ones.
    assert_eq!(alloc.alloc_page(), Some(50));
    assert_eq!(alloc.alloc_page(), Some(52));
}

#[test]
fn trap_classification() {
    assert_eq!(classify_trap(false, 3), TrapKind::Breakpoint);
    assert_eq!(classify_trap(true, 5), TrapKind::SupervisorTimer);
    assert_eq!(classify_trap(false, 12), TrapKind::PageFault);
    assert_eq!(classify_trap(false, 13), TrapKind::PageFault);
    assert_eq!(classify_trap(false, 15), TrapKind::PageFault);
    assert_eq!(classify_trap(false, 5), TrapKind::Unknown);
    assert_eq!(classify_trap(true, 3), TrapKind::Unknown);
    assert_eq!(classify_trap(false, 2), TrapKind::Unknown);
}

#[test]
fn breakpoint_advances_past_ebreak() {
    // A compressed ebreak is two bytes; the thread resumes right after it.
    let mut sepc: usize = 0x8020_0456;
    breakpoint(&mut sepc);
    assert_eq!(sepc, 0x8020_0458);
}

#[test]
fn timer_counts_hundred_ticks_per_report() {
    // The tick counter reports exactly once per 100 ticks and wraps.
    let mut ticks: usize = 0;
    let mut reports = 0;
    for i in 1..=250usize {
        let (next, report) = timer_tick(ticks);
        ticks = next;
        if report {
            reports += 1;
            assert_eq!(i % 100, 0);
        }
        assert!(ticks < 100);
    }
    assert_eq!(reports, 2);
    assert_eq!(ticks, 50);
}

#[test]
fn timer_deadline_is_timebase_ahead() {
    assert_eq!(next_deadline(0), TIMEBASE);
    assert_eq!(next_deadline(1_000_000), 1_000_000 + TIMEBASE);
}

#[test]
fn fresh_context_first_entry_state() {
    // The synthetic frame makes the first switch-in land at `entry` in
    // S-mode with interrupts off now and on after sret.
    let entry = 0x8020_1000usize;
    let kstack_top = 0x8060_0000usize;
    let satp = 0x8000_0000_0008_0123usize;
    let trap_ret = 0x8020_0CAFusize;
    let content = ContextContent::new_kernel_thread(entry, kstack_top, satp, trap_ret, 0);
    assert_eq!(content.ra, trap_ret);
    assert_eq!(content.satp, satp);
    assert_eq!(content.s, [0; 12]);
    assert_eq!(content.sf.reg[2], kstack_top);
    assert_eq!(content.sf.sepc, entry);
    // SPP (bit 8) and SPIE (bit 5) set, SIE (bit 1) clear.
    assert_eq!(content.sf.sstatus, 0x120);
}

#[test]
fn initial_sstatus_bits() {
    assert_eq!(initial_sstatus(0), 0x120);
    // A set SIE is cleared, other bits survive.
    assert_eq!(initial_sstatus(0x2), 0x120);
    assert_eq!(initial_sstatus(0x8000), 0x8120);
}

#[test]
fn initial_arguments_land_in_a0_to_a2() {
    let mut content = ContextContent::new_kernel_thread(0x1000, 0x2000, 0, 0x3000, 0);
    content.append_initial_arguments([7, 8, 9]);
    assert_eq!(content.sf.reg[10], 7);
    assert_eq!(content.sf.reg[11], 8);
    assert_eq!(content.sf.reg[12], 9);
    assert_eq!(content.sf.reg[2], 0x2000);
}

#[test]
fn null_context_handle() {
    assert_eq!(Context::null().content_addr, 0);
}
