use os::context::Context;
use os::process::{KernelStack, Thread};
use os::processor::Processor;
use os::scheduler::{RRScheduler, Scheduler};
use os::thread_pool::ThreadPool;

fn dummy_thread(mark: usize) -> Box<Thread> {
    Box::new(Thread { context: Context { content_addr: mark }, kstack: KernelStack(0) })
}

#[test]
fn rr_scheduler_fifo_order() {
    let mut s = RRScheduler::new(2);
    s.push(0);
    s.push(1);
    s.push(2);
    assert_eq!(s.pop(), Some(0));
    assert_eq!(s.pop(), Some(1));
    assert_eq!(s.pop(), Some(2));
    assert_eq!(s.pop(), None);
}

#[test]
fn rr_scheduler_quantum_boundary() {
    // A thread with a quantum of 2 is preempted on exactly the second tick.
    let mut s = RRScheduler::new(2);
    s.push(7);
    assert_eq!(s.pop(), Some(7));
    assert!(!s.tick());
    assert!(s.tick());
}

#[test]
fn rr_scheduler_tick_without_current() {
    let mut s = RRScheduler::new(3);
    assert!(s.tick());
}

#[test]
fn rr_scheduler_exit_clears_current() {
    let mut s = RRScheduler::new(2);
    s.push(0);
    s.push(1);
    assert_eq!(s.pop(), Some(0));
    s.exit(0);
    // With no current thread every tick asks for a switch.
    assert!(s.tick());
}

#[test]
fn rr_scheduler_requeue_after_preemption() {
    // Two threads with quantum 2 alternate: 0 runs, is requeued, 1 runs,
    // is requeued, then 0 again.
    let mut s = RRScheduler::new(2);
    s.push(0);
    s.push(1);
    assert_eq!(s.pop(), Some(0));
    assert!(!s.tick());
    assert!(s.tick());
    s.push(0);
    assert_eq!(s.pop(), Some(1));
    assert!(!s.tick());
    assert!(s.tick());
    s.push(1);
    assert_eq!(s.pop(), Some(0));
}

#[test]
fn rr_scheduler_keeps_partial_quantum_on_readmission() {
    // push refills the quantum only when it has run out: a thread
    // re-admitted with one tick left gets exactly that one tick.
    let mut s = RRScheduler::new(2);
    s.push(0);
    assert_eq!(s.pop(), Some(0));
    assert!(!s.tick());
    s.push(0);
    assert_eq!(s.pop(), Some(0));
    assert!(s.tick());
}

#[test]
fn pool_add_returns_lowest_free_tid() {
    let mut pool = ThreadPool::new(10, RRScheduler::new(2));
    assert_eq!(pool.add(dummy_thread(100)), 0);
    assert_eq!(pool.add(dummy_thread(101)), 1);
    assert_eq!(pool.add(dummy_thread(102)), 2);
}

#[test]
fn pool_tid_reuse_after_exit() {
    // After exiting tid 1, the next add reuses 1: the lowest free slot.
    let mut pool = ThreadPool::new(10, RRScheduler::new(2));
    assert_eq!(pool.add(dummy_thread(100)), 0);
    assert_eq!(pool.add(dummy_thread(101)), 1);
    assert_eq!(pool.add(dummy_thread(102)), 2);
    let (tid, _body0) = pool.acquire().expect("a thread is ready");
    assert_eq!(tid, 0);
    pool.exit(0);
    assert_eq!(pool.add(dummy_thread(103)), 0);
}

#[test]
fn pool_exited_tid_never_acquired() {
    // Exit correctness: after tid 0 exits, no later acquire returns 0
    // while threads 1 and 2 keep cycling.
    let mut pool = ThreadPool::new(10, RRScheduler::new(2));
    pool.add(dummy_thread(100));
    pool.add(dummy_thread(101));
    pool.add(dummy_thread(102));
    let (tid, _body) = pool.acquire().expect("a thread is ready");
    assert_eq!(tid, 0);
    pool.exit(0);
    for _ in 0..10 {
        let (tid, body) = pool.acquire().expect("threads 1 and 2 stay alive");
        assert_ne!(tid, 0);
        pool.retrieve(tid, body);
    }
}

#[test]
fn pool_acquire_none_when_empty() {
    let mut pool: ThreadPool<RRScheduler> = ThreadPool::new(10, RRScheduler::new(2));
    assert!(pool.acquire().is_none());
}

#[test]
fn processor_dispatches_short_threads_in_tid_order() {
    // Five threads that exit within their first quantum are dispatched
    // in admission order 0..5, then nothing is runnable.
    let mut cpu: Processor<RRScheduler> = Processor::new();
    let pool = ThreadPool::new(100, RRScheduler::new(2));
    let idle = Thread { context: Context { content_addr: 0xA }, kstack: KernelStack(0) };
    cpu.init(idle, pool);
    for i in 0..5usize {
        assert_eq!(cpu.add_thread(dummy_thread(i)), i);
    }
    for i in 0..5usize {
        let tid = cpu.acquire_next().expect("a thread is ready");
        assert_eq!(tid, i);
        // The thread runs, prints, and terminates itself.
        assert_eq!(cpu.exit(0), i);
        cpu.retrieve_current();
    }
    assert_eq!(cpu.acquire_next(), None);
}

#[test]
fn processor_alternates_long_running_threads() {
    // Two threads that never exit alternate every two ticks; over 20
    // ticks each is charged 10.
    let mut cpu: Processor<RRScheduler> = Processor::new();
    let pool = ThreadPool::new(100, RRScheduler::new(2));
    let idle = Thread { context: Context { content_addr: 0xA }, kstack: KernelStack(0) };
    cpu.init(idle, pool);
    cpu.add_thread(dummy_thread(0));
    cpu.add_thread(dummy_thread(1));
    let mut charges = [0usize; 2];
    let mut running = cpu.acquire_next().expect("a thread is ready");
    let mut dispatch_order = vec![running];
    for _ in 0..20 {
        charges[running] += 1;
        if cpu.tick() {
            cpu.retrieve_current();
            running = cpu.acquire_next().expect("both threads stay alive");
            dispatch_order.push(running);
        }
    }
    assert_eq!(charges[0], 10);
    assert_eq!(charges[1], 10);
    // Strict alternation in dispatch order.
    for (i, tid) in dispatch_order.iter().enumerate() {
        assert_eq!(*tid, i % 2);
    }
}

#[test]
fn processor_fairness_window() {
    // Round-robin fairness: three live threads, quantum 2; in any
    // window of 6 consecutive ticks each thread is charged exactly 2.
    let mut cpu: Processor<RRScheduler> = Processor::new();
    let pool = ThreadPool::new(100, RRScheduler::new(2));
    let idle = Thread { context: Context { content_addr: 0xA }, kstack: KernelStack(0) };
    cpu.init(idle, pool);
    for i in 0..3usize {
        cpu.add_thread(dummy_thread(i));
    }
    let mut charged = Vec::new();
    let mut running = cpu.acquire_next().expect("a thread is ready");
    for _ in 0..30 {
        charged.push(running);
        if cpu.tick() {
            cpu.retrieve_current();
            running = cpu.acquire_next().expect("all threads stay alive");
        }
    }
    for w in 0..(charged.len() - 6) {
        for t in 0..3usize {
            let n = charged[w..w + 6].iter().filter(|&&c| c == t).count();
            assert_eq!(n, 2, "window at {w} charges thread {t} unfairly");
        }
    }
}

#[test]
fn processor_idle_wake_when_all_exit() {
    // Idle wake: once every thread has exited, acquire finds nothing,
    // and after another (simulated) timer interrupt still nothing.
    let mut cpu: Processor<RRScheduler> = Processor::new();
    let pool = ThreadPool::new(100, RRScheduler::new(2));
    let idle = Thread { context: Context { content_addr: 0xA }, kstack: KernelStack(0) };
    cpu.init(idle, pool);
    cpu.add_thread(dummy_thread(0));
    cpu.add_thread(dummy_thread(1));
    for _ in 0..2 {
        let _tid = cpu.acquire_next().expect("a thread is ready");
        cpu.exit(0);
        cpu.retrieve_current();
    }
    assert_eq!(cpu.acquire_next(), None);
    // The idle loop re-enters wfi; the tick with no current thread does
    // not ask for a switch.
    assert!(!cpu.tick());
    assert_eq!(cpu.acquire_next(), None);
}

#[test]
fn boot_thread_is_null() {
    let boot = Thread::get_boot_thread();
    assert_eq!(boot.context.content_addr, 0);
    assert_eq!(boot.kstack.0, 0);
}

#[test]
fn kernel_stack_top() {
    let stack = KernelStack(0x8020_0000);
    assert_eq!(stack.top(), 0x8020_0000 + os::process::KERNEL_STACK_SIZE);
    assert_eq!(KernelStack::new_empty().0, 0);
}
