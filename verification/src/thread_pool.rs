//! The thread pool: a fixed-capacity vector of slots that owns thread
//! bodies keyed by tid and tracks their lifecycle, delegating the order
//! of execution to a pluggable scheduler.
//!
//! A thread body lives in exactly one place at any instant: parked in
//! its slot, or handed out by `acquire` until `retrieve` parks it again.

use crate::process::Thread;
use crate::scheduler::{Scheduler, Status};
use crate::Tid;
use vstd::pervasive::unreached;
use vstd::prelude::*;

verus! {

/// One occupied slot: the thread's status and, while it is not
/// executing, its parked body.
struct Task {
    status: Status,
    thread: Option<Box<Thread>>,
}

/// Replace slot `i` of `v`, returning what it held.
fn slot_swap(v: &mut Vec<Option<Task>>, i: usize, x: Option<Task>) -> (r: Option<Task>)
    requires
        i < old(v)@.len(),
    ensures
        final(v)@ == old(v)@.update(i as int, x),
        r == old(v)@[i as int],
{
    let r = v.remove(i);
    v.insert(i, x);
    proof {
        assert(final(v)@ =~= old(v)@.update(i as int, x));
    }
    r
}

/// A pool of up to `capacity()` threads, scheduled by `S`.
pub struct ThreadPool<S: Scheduler> {
    threads: Vec<Option<Task>>,
    scheduler: S,
}

impl<S: Scheduler> ThreadPool<S> {
    /// Number of slots, fixed at construction.
    pub closed spec fn capacity(self) -> int {
        self.threads@.len() as int
    }

    /// True iff slot `tid` holds a thread.
    pub closed spec fn occupied(self, tid: Tid) -> bool {
        (tid as int) < self.threads@.len() && self.threads@[tid as int] is Some
    }

    /// Status of the thread in slot `tid`.
    pub closed spec fn status_of(self, tid: Tid) -> Status
        recommends
            self.occupied(tid),
    {
        self.threads@[tid as int]->0.status
    }

    /// The body parked in slot `tid`, if the thread is not executing.
    pub closed spec fn parked_thread(self, tid: Tid) -> Option<Box<Thread>>
        recommends
            self.occupied(tid),
    {
        self.threads@[tid as int]->0.thread
    }

    /// The scheduler's ready queue, head first.
    pub closed spec fn ready_queue(self) -> Seq<Tid> {
        self.scheduler.queue()
    }

    /// The tid the scheduler last dequeued for execution, if any.
    pub closed spec fn sched_current(self) -> Option<Tid> {
        self.scheduler.current_tid()
    }

    /// Remaining quantum of `tid`, in ticks.
    pub closed spec fn time_of(self, tid: Tid) -> int {
        self.scheduler.time_of(tid)
    }

    /// The full quantum granted on admission, in ticks.
    pub closed spec fn quantum(self) -> int {
        self.scheduler.quantum()
    }

    /// `tid` is the lowest-numbered free slot.
    pub open spec fn is_first_free(self, tid: Tid) -> bool {
        &&& (tid as int) < self.capacity()
        &&& !self.occupied(tid)
        &&& forall|t: Tid| t < tid ==> self.occupied(t)
    }

    /// Pool invariant: the scheduler is consistent, every queued tid
    /// names an occupied slot that is Ready with its body parked, and
    /// the queue holds no duplicates.
    pub closed spec fn wf(self) -> bool {
        &&& self.scheduler.wf()
        &&& self.threads@.len() + 1 <= usize::MAX
        &&& forall|i: int|
            0 <= i < self.scheduler.queue().len() ==> (#[trigger] self.scheduler.queue()[i]
                as int) < self.threads@.len()
        &&& forall|i: int, j: int|
            0 <= i < j < self.scheduler.queue().len() ==> self.scheduler.queue()[i]
                != self.scheduler.queue()[j]
        &&& forall|i: int|
            0 <= i < self.scheduler.queue().len() ==> {
                let t = #[trigger] self.scheduler.queue()[i];
                &&& self.threads@[t as int] is Some
                &&& self.threads@[t as int]->0.status is Ready
                &&& self.threads@[t as int]->0.thread is Some
            }
    }

    /// Every tid in the ready queue names an occupied, Ready slot with a
    /// parked body; in particular, a freed slot's tid is not queued.
    pub proof fn lemma_ready_slots(self)
        requires
            self.wf(),
        ensures
            forall|i: int|
                0 <= i < self.ready_queue().len() ==> {
                    let t = #[trigger] self.ready_queue()[i];
                    &&& self.occupied(t)
                    &&& self.status_of(t) is Ready
                    &&& self.parked_thread(t) is Some
                },
            forall|t: Tid| !self.occupied(t) ==> !self.ready_queue().contains(t),
    {
        assert forall|t: Tid| !self.occupied(t) implies !self.ready_queue().contains(t) by {
            if self.ready_queue().contains(t) {
                let i = choose|i: int|
                    0 <= i < self.ready_queue().len() && self.ready_queue()[i] == t;
                assert(self.threads@[t as int] is Some);
            }
        }
    }

    /// Exit correctness: a tid whose slot is free is not in the ready
    /// queue, at no position. `exit` frees the slot and leaves the queue
    /// without the tid, `acquire` returns only the queue head, and no
    /// operation but `add` occupies a slot, so an exited tid is never
    /// acquired again until `add` reuses it.
    pub proof fn lemma_freed_tid_not_ready(self, tid: Tid)
        requires
            self.wf(),
            !self.occupied(tid),
        ensures
            !self.ready_queue().contains(tid),
            forall|i: int| 0 <= i < self.ready_queue().len() ==> self.ready_queue()[i] != tid,
    {
        self.lemma_ready_slots();
        assert forall|i: int| 0 <= i < self.ready_queue().len() implies self.ready_queue()[i]
            != tid by {
            if self.ready_queue()[i] == tid {
                assert(self.ready_queue().contains(tid));
            }
        }
    }

    /// Idle wake: with every slot free nothing is runnable, so the
    /// dispatcher's `acquire` yields `None` and the hart goes back to
    /// waiting for an interrupt.
    pub proof fn lemma_all_free_queue_empty(self)
        requires
            self.wf(),
            forall|t: Tid| !self.occupied(t),
        ensures
            self.ready_queue().len() == 0,
    {
        self.lemma_ready_slots();
        if self.ready_queue().len() > 0 {
            assert(self.occupied(self.ready_queue()[0]));
        }
    }

    /// An empty pool of `size` slots under a fresh scheduler.
    pub fn new(size: usize, scheduler: S) -> (r: ThreadPool<S>)
        requires
            scheduler.wf(),
            scheduler.queue().len() == 0,
            size + 1 <= usize::MAX,
        ensures
            r.wf(),
            r.capacity() == size,
            r.ready_queue().len() == 0,
            r.sched_current() == scheduler.current_tid(),
            r.quantum() == scheduler.quantum(),
            forall|t: Tid| !r.occupied(t),
            forall|t: Tid| r.time_of(t) == scheduler.time_of(t),
    {
        let mut threads: Vec<Option<Task>> = Vec::new();
        let mut k: usize = 0;
        while k < size
            invariant
                threads@.len() == k,
                k <= size,
                forall|j: int| 0 <= j < k ==> threads@[j] is None,
            decreases size - k,
        {
            threads.push(None);
            k = k + 1;
        }
        ThreadPool { threads, scheduler }
    }

    /// Find the lowest free tid.
    fn alloc_tid(&self) -> (tid: Tid)
        requires
            self.wf(),
            exists|t: Tid| (t as int) < self.capacity() && !self.occupied(t),
        ensures
            self.is_first_free(tid),
    {
        let n = self.threads.len();
        let mut i: usize = 0;
        while i < n
            invariant
                n == self.threads@.len(),
                i <= n,
                forall|t: Tid| t < i ==> self.occupied(t),
            decreases n - i,
        {
            if self.threads[i].is_none() {
                return i;
            }
            i = i + 1;
        }
        proof {
            let t = choose|t: Tid| (t as int) < self.capacity() && !self.occupied(t);
            assert(self.occupied(t));
        }
        unreached()
    }

    /// Whether slot `tid` currently holds a thread. The idle loop asks
    /// this after a switch-back to learn whether the thread exited.
    pub fn is_occupied(&self, tid: Tid) -> (r: bool)
        ensures
            r == self.occupied(tid),
    {
        tid < self.threads.len() && self.threads[tid].is_some()
    }

    /// Install `thread` in the lowest free slot as Ready, admit its tid
    /// to the scheduler, and return the tid: freed tids are reused.
    pub fn add(&mut self, thread: Box<Thread>) -> (r: Tid)
        requires
            old(self).wf(),
            exists|t: Tid| (t as int) < old(self).capacity() && !old(self).occupied(t),
        ensures
            final(self).wf(),
            final(self).capacity() == old(self).capacity(),
            final(self).quantum() == old(self).quantum(),
            final(self).sched_current() == old(self).sched_current(),
            old(self).is_first_free(r),
            final(self).occupied(r),
            final(self).status_of(r) is Ready,
            final(self).parked_thread(r) == Some(thread),
            final(self).ready_queue() == old(self).ready_queue().push(r),
            final(self).time_of(r) == if old(self).time_of(r) == 0 {
                old(self).quantum()
            } else {
                old(self).time_of(r)
            },
            forall|t: Tid|
                t != r && (t as int) < old(self).capacity() ==> #[trigger] final(self).occupied(
                    t,
                ) == old(self).occupied(t) && final(self).status_of(t) == old(self).status_of(t)
                    && final(self).parked_thread(t) == old(self).parked_thread(t),
            forall|t: Tid| t != r ==> final(self).time_of(t) == old(self).time_of(t),
    {
        let tid = self.alloc_tid();
        proof {
            if self.scheduler.queue().contains(tid) {
                let i = choose|i: int|
                    0 <= i < self.scheduler.queue().len() && self.scheduler.queue()[i] == tid;
                assert(self.threads@[tid as int] is Some);
            }
        }
        let _ = slot_swap(
            &mut self.threads,
            tid,
            Some(Task { status: Status::Ready, thread: Some(thread) }),
        );
        self.scheduler.push(tid);
        proof {
            assert forall|i: int|
                0 <= i < self.scheduler.queue().len() implies {
                let t = #[trigger] self.scheduler.queue()[i];
                &&& self.threads@[t as int] is Some
                &&& self.threads@[t as int]->0.status is Ready
                &&& self.threads@[t as int]->0.thread is Some
            } by {
                let t = self.scheduler.queue()[i];
                if i < self.scheduler.queue().len() - 1 {
                    assert(self.scheduler.queue()[i] == old(self).scheduler.queue()[i]);
                }
            }
        }
        tid
    }

    /// Dequeue the scheduler's head thread, mark it Running, and hand
    /// its body out; `None` exactly when no thread is ready.
    pub fn acquire(&mut self) -> (r: Option<(Tid, Box<Thread>)>)
        requires
            old(self).wf(),
        ensures
            final(self).wf(),
            final(self).capacity() == old(self).capacity(),
            final(self).quantum() == old(self).quantum(),
            forall|t: Tid| final(self).time_of(t) == old(self).time_of(t),
            old(self).ready_queue().len() == 0 ==> r is None
                && final(self).ready_queue() == old(self).ready_queue()
                && final(self).sched_current() == old(self).sched_current()
                && forall|t: Tid| #![auto]
                    (t as int) < old(self).capacity() ==> final(self).occupied(t)
                        == old(self).occupied(t)
                        && final(self).status_of(t) == old(self).status_of(t)
                        && final(self).parked_thread(t) == old(self).parked_thread(t),
            old(self).ready_queue().len() > 0 ==> {
                let tid = old(self).ready_queue()[0];
                &&& (tid as int) < old(self).capacity()
                &&& r matches Some(pr) && pr.0 == tid && Some(pr.1) == old(self).parked_thread(
                    tid,
                )
                &&& final(self).ready_queue() == old(self).ready_queue().drop_first()
                &&& final(self).sched_current() == Some(tid)
                &&& final(self).occupied(tid)
                &&& final(self).status_of(tid) == Status::Running(tid)
                &&& final(self).parked_thread(tid) is None
                &&& forall|t: Tid|
                    t != tid && (t as int) < old(self).capacity() ==> #[trigger] final(self).occupied(t) == old(self).occupied(t)
                        && final(self).status_of(t) == old(self).status_of(t) && final(self).parked_thread(t) == old(self).parked_thread(t)
            },
    {
        match self.scheduler.pop() {
            Some(tid) => {
                proof {
                    assert(old(self).scheduler.queue()[0] == tid);
                }
                let taken = slot_swap(&mut self.threads, tid, None);
                match taken {
                    Some(task) => {
                        match task.thread {
                            Some(body) => {
                                let _ = slot_swap(
                                    &mut self.threads,
                                    tid,
                                    Some(Task { status: Status::Running(tid), thread: None }),
                                );
                                proof {
                                    let q0 = old(self).scheduler.queue();
                                    assert forall|i: int|
                                        0 <= i < self.scheduler.queue().len() implies {
                                        let t = #[trigger] self.scheduler.queue()[i];
                                        &&& self.threads@[t as int] is Some
                                        &&& self.threads@[t as int]->0.status is Ready
                                        &&& self.threads@[t as int]->0.thread is Some
                                    } by {
                                        assert(self.scheduler.queue()[i] == q0[i + 1]);
                                        assert(q0[i + 1] != q0[0]);
                                    }
                                }
                                Some((tid, body))
                            },
                            None => unreached(),
                        }
                    },
                    None => unreached(),
                }
            },
            None => None,
        }
    }

    /// Take back a body that was switched out. If the slot was freed by
    /// `exit` while the thread ran, the body is discarded; a Running
    /// thread is parked and re-admitted as Ready; a Sleeping thread is
    /// parked without re-admission.
    pub fn retrieve(&mut self, tid: Tid, thread: Box<Thread>)
        requires
            old(self).wf(),
            (tid as int) < old(self).capacity(),
            !old(self).ready_queue().contains(tid),
            old(self).occupied(tid) ==> (old(self).status_of(tid) matches Status::Running(_)
                || old(self).status_of(tid) is Sleeping),
            old(self).occupied(tid) ==> old(self).parked_thread(tid) is None,
        ensures
            final(self).wf(),
            final(self).capacity() == old(self).capacity(),
            final(self).quantum() == old(self).quantum(),
            final(self).sched_current() == old(self).sched_current(),
            forall|t: Tid|
                t != tid && (t as int) < old(self).capacity() ==> #[trigger] final(self).occupied(t) == old(self).occupied(t)
                    && final(self).status_of(t) == old(self).status_of(t) && final(self).parked_thread(t) == old(self).parked_thread(t),
            !old(self).occupied(tid) ==> !final(self).occupied(tid)
                && final(self).ready_queue() == old(self).ready_queue()
                && forall|t: Tid| final(self).time_of(t) == old(self).time_of(t),
            old(self).occupied(tid) && (old(self).status_of(tid) matches Status::Running(_))
                ==> final(self).occupied(tid)
                && final(self).status_of(tid) is Ready
                && final(self).parked_thread(tid) == Some(thread)
                && final(self).ready_queue() == old(self).ready_queue().push(tid)
                && final(self).time_of(tid) == (if old(self).time_of(tid) == 0 {
                    old(self).quantum()
                } else {
                    old(self).time_of(tid)
                })
                && forall|t: Tid| t != tid ==> final(self).time_of(t) == old(self).time_of(t),
            old(self).occupied(tid) && old(self).status_of(tid) is Sleeping ==> final(self).occupied(tid)
                && final(self).status_of(tid) is Sleeping
                && final(self).parked_thread(tid) == Some(thread)
                && final(self).ready_queue() == old(self).ready_queue()
                && forall|t: Tid| final(self).time_of(t) == old(self).time_of(t),
    {
        let taken = slot_swap(&mut self.threads, tid, None);
        match taken {
            None => {
                let _ = slot_swap(&mut self.threads, tid, None);
                proof {
                    assert(self.threads@ =~= old(self).threads@);
                }
            },
            Some(task) => {
                match task.status {
                    Status::Running(_) => {
                        let _ = slot_swap(
                            &mut self.threads,
                            tid,
                            Some(Task { status: Status::Ready, thread: Some(thread) }),
                        );
                        self.scheduler.push(tid);
                        proof {
                            assert forall|i: int|
                                0 <= i < self.scheduler.queue().len() implies {
                                let t = #[trigger] self.scheduler.queue()[i];
                                &&& self.threads@[t as int] is Some
                                &&& self.threads@[t as int]->0.status is Ready
                                &&& self.threads@[t as int]->0.thread is Some
                            } by {
                                if i < self.scheduler.queue().len() - 1 {
                                    assert(self.scheduler.queue()[i] == old(self).scheduler.queue()[i]);
                                }
                            }
                        }
                    },
                    Status::Sleeping => {
                        let _ = slot_swap(
                            &mut self.threads,
                            tid,
                            Some(Task { status: Status::Sleeping, thread: Some(thread) }),
                        );
                    },
                    _ => unreached(),
                }
            },
        }
    }

    /// Charge one tick to the current thread; true exactly when the
    /// caller should preempt it.
    pub fn tick(&mut self) -> (r: bool)
        requires
            old(self).wf(),
            old(self).sched_current() matches Some(t) ==> old(self).time_of(t) >= 1,
        ensures
            final(self).wf(),
            final(self).capacity() == old(self).capacity(),
            final(self).quantum() == old(self).quantum(),
            final(self).ready_queue() == old(self).ready_queue(),
            final(self).sched_current() == old(self).sched_current(),
            forall|t: Tid| #![auto]
                (t as int) < old(self).capacity() ==> final(self).occupied(t)
                    == old(self).occupied(t)
                    && final(self).status_of(t) == old(self).status_of(t)
                    && final(self).parked_thread(t) == old(self).parked_thread(t),
            match old(self).sched_current() {
                Some(t) => {
                    &&& final(self).time_of(t) == old(self).time_of(t) - 1
                    &&& forall|u: Tid| u != t ==> final(self).time_of(u) == old(self).time_of(u)
                    &&& r == (old(self).time_of(t) == 1)
                },
                None => {
                    &&& r == true
                    &&& forall|u: Tid| final(self).time_of(u) == old(self).time_of(u)
                },
            },
    {
        self.scheduler.tick()
    }

    /// Free slot `tid` and tell the scheduler the thread is gone. The
    /// tid must not be in the ready queue (an exiting thread was
    /// Running, so it is not); afterwards it stays out until re-added.
    pub fn exit(&mut self, tid: Tid)
        requires
            old(self).wf(),
            (tid as int) < old(self).capacity(),
            !old(self).ready_queue().contains(tid),
        ensures
            final(self).wf(),
            final(self).capacity() == old(self).capacity(),
            final(self).quantum() == old(self).quantum(),
            !final(self).occupied(tid),
            final(self).ready_queue() == old(self).ready_queue(),
            !final(self).ready_queue().contains(tid),
            final(self).sched_current() == if old(self).sched_current() == Some(tid) {
                None::<Tid>
            } else {
                old(self).sched_current()
            },
            forall|t: Tid| final(self).time_of(t) == old(self).time_of(t),
            forall|t: Tid|
                t != tid && (t as int) < old(self).capacity() ==> #[trigger] final(self).occupied(t) == old(self).occupied(t)
                    && final(self).status_of(t) == old(self).status_of(t) && final(self).parked_thread(t) == old(self).parked_thread(t),
    {
        let _ = slot_swap(&mut self.threads, tid, None);
        self.scheduler.exit(tid);
    }
}

} // verus!
