//! Thread scheduling: the lifecycle status of a pooled thread, the
//! scheduler interface, and the round-robin scheduler.
//!
//! The round-robin scheduler keeps its ready threads in an intrusive
//! circular doubly-linked list laid over a vector indexed by tid + 1,
//! with slot 0 as the sentinel head. The list is specified against an
//! abstract FIFO queue of tids: `push` admits at the tail, `pop` takes
//! the head, and each thread carries a remaining time quantum that is
//! refilled from `max_time` only when it has run out.

use crate::Tid;
use vstd::prelude::*;

verus! {

/// Lifecycle status of a thread-pool slot.
pub enum Status {
    /// Admitted and runnable; the thread is in the scheduler's ready queue.
    Ready,
    /// Dequeued and executing on the hart, under the recorded tid.
    Running(Tid),
    /// Parked voluntarily; not runnable until woken.
    Sleeping,
    /// Terminated with an exit code; the slot is about to be freed.
    Exited(usize),
}

/// A scheduling policy over tids. It never touches thread bodies: it
/// orders an abstract ready queue and tracks per-thread quanta.
pub trait Scheduler: Sized {
    /// The ready queue, head first.
    spec fn queue(self) -> Seq<Tid>;

    /// The tid currently dequeued for execution, if any.
    spec fn current_tid(self) -> Option<Tid>;

    /// Remaining quantum of `tid`, in ticks.
    spec fn time_of(self, tid: Tid) -> int;

    /// The full quantum granted on admission, in ticks.
    spec fn quantum(self) -> int;

    /// Internal consistency of the scheduler's bookkeeping.
    spec fn wf(self) -> bool;

    /// Admit `tid` to the tail of the ready queue, refilling its quantum
    /// from `quantum()` exactly when the remaining quantum is zero.
    fn push(&mut self, tid: Tid)
        requires
            old(self).wf(),
            !old(self).queue().contains(tid),
            tid + 2 <= usize::MAX,
        ensures
            final(self).wf(),
            final(self).queue() == old(self).queue().push(tid),
            final(self).current_tid() == old(self).current_tid(),
            final(self).quantum() == old(self).quantum(),
            final(self).time_of(tid) == if old(self).time_of(tid) == 0 {
                old(self).quantum()
            } else {
                old(self).time_of(tid)
            },
            forall|t: Tid| t != tid ==> final(self).time_of(t) == old(self).time_of(t),
    ;

    /// Remove and return the head of the ready queue, recording it as the
    /// current tid; `None` exactly when the queue is empty.
    fn pop(&mut self) -> (r: Option<Tid>)
        requires
            old(self).wf(),
        ensures
            final(self).wf(),
            final(self).quantum() == old(self).quantum(),
            forall|t: Tid| final(self).time_of(t) == old(self).time_of(t),
            old(self).queue().len() == 0 ==> r is None
                && final(self).queue() == old(self).queue()
                && final(self).current_tid() == old(self).current_tid(),
            old(self).queue().len() > 0 ==> r == Some(old(self).queue()[0])
                && final(self).queue() == old(self).queue().drop_first()
                && final(self).current_tid() == Some(old(self).queue()[0]),
    ;

    /// Charge one tick to the current thread. Returns true exactly when
    /// the caller should preempt: the quantum has just reached zero, or
    /// there is no current thread.
    fn tick(&mut self) -> (r: bool)
        requires
            old(self).wf(),
            old(self).current_tid() matches Some(t) ==> old(self).time_of(t) >= 1,
        ensures
            final(self).wf(),
            final(self).queue() == old(self).queue(),
            final(self).current_tid() == old(self).current_tid(),
            final(self).quantum() == old(self).quantum(),
            match old(self).current_tid() {
                Some(t) => {
                    &&& final(self).time_of(t) == old(self).time_of(t) - 1
                    &&& forall|u: Tid| u != t ==> final(self).time_of(u) == old(self).time_of(u)
                    &&& r == (old(self).time_of(t) == 1)
                },
                None => {
                    &&& r == true
                    &&& forall|u: Tid| final(self).time_of(u) == old(self).time_of(u)
                },
            },
    ;

    /// Acknowledge that `tid` has terminated: forget it as the current
    /// tid. The queue is untouched; a terminating thread is not in it.
    fn exit(&mut self, tid: Tid)
        requires
            old(self).wf(),
            tid < usize::MAX,
        ensures
            final(self).wf(),
            final(self).queue() == old(self).queue(),
            final(self).quantum() == old(self).quantum(),
            forall|t: Tid| final(self).time_of(t) == old(self).time_of(t),
            final(self).current_tid() == if old(self).current_tid() == Some(tid) {
                None::<Tid>
            } else {
                old(self).current_tid()
            },
    ;
}

/// One slot of the round-robin scheduler's intrusive list.
#[derive(Clone, Copy)]
struct RRInfo {
    valid: bool,
    time: usize,
    prev: usize,
    next: usize,
}

/// Round-robin scheduler: FIFO ready list with a fixed per-admission
/// quantum of `max_time` ticks.
pub struct RRScheduler {
    threads: Vec<RRInfo>,
    max_time: usize,
    current: usize,
    order: Ghost<Seq<usize>>,
}

impl RRScheduler {
    /// A scheduler granting each thread `max_time_slice` consecutive
    /// ticks before preemption.
    pub fn new(max_time_slice: usize) -> (r: RRScheduler)
        requires
            max_time_slice >= 1,
        ensures
            r.wf(),
            r.queue() == Seq::<Tid>::empty(),
            r.current_tid() is None,
            r.quantum() == max_time_slice,
            forall|t: Tid| r.time_of(t) == 0,
    {
        let mut threads: Vec<RRInfo> = Vec::new();
        threads.push(RRInfo { valid: false, time: 0, prev: 0, next: 0 });
        let r = RRScheduler {
            threads,
            max_time: max_time_slice,
            current: 0,
            order: Ghost(Seq::empty()),
        };
        proof {
            assert(r.queue() =~= Seq::<Tid>::empty());
        }
        r
    }
}

impl Scheduler for RRScheduler {
    closed spec fn queue(self) -> Seq<Tid> {
        self.order@.map_values(|v: usize| (v - 1) as usize)
    }

    closed spec fn current_tid(self) -> Option<Tid> {
        if self.current == 0 {
            None
        } else {
            Some((self.current - 1) as usize)
        }
    }

    closed spec fn time_of(self, tid: Tid) -> int {
        if tid + 1 < self.threads@.len() {
            self.threads@[tid + 1].time as int
        } else {
            0
        }
    }

    closed spec fn quantum(self) -> int {
        self.max_time as int
    }

    closed spec fn wf(self) -> bool {
        let q = self.order@;
        let n = q.len() as int;
        &&& self.threads@.len() >= 1
        &&& (self.current as int) < self.threads@.len()
        &&& self.max_time >= 1
        &&& forall|i: int| 0 <= i < n ==> 1 <= #[trigger] q[i] < self.threads@.len()
        &&& forall|i: int, j: int| 0 <= i < j < n ==> q[i] != q[j]
        &&& self.threads@[0].next == if n == 0 {
            0usize
        } else {
            q[0]
        }
        &&& self.threads@[0].prev == if n == 0 {
            0usize
        } else {
            q[n - 1]
        }
        &&& forall|i: int|
            0 <= i < n ==> (#[trigger] self.threads@[q[i] as int].next) == if i == n - 1 {
                0usize
            } else {
                q[i + 1]
            }
        &&& forall|i: int|
            0 <= i < n ==> (#[trigger] self.threads@[q[i] as int].prev) == if i == 0 {
                0usize
            } else {
                q[i - 1]
            }
        &&& forall|i: int| 0 <= i < n ==> (#[trigger] self.threads@[q[i] as int].valid)
        &&& forall|j: usize|
            1 <= j < self.threads@.len() && !q.contains(j)
                ==> !(#[trigger] self.threads@[j as int].valid)
    }

    fn push(&mut self, tid: Tid) {
        let idx = tid + 1;
        proof {
            if self.order@.contains(idx) {
                let i = choose|i: int|
                    0 <= i < self.order@.len() && self.order@[i] == idx;
                assert(self.queue()[i] == tid);
                assert(self.queue().contains(tid));
            }
        }
        while self.threads.len() < idx + 1
            invariant
                old(self).wf(),
                idx == tid + 1,
                idx + 1 <= usize::MAX,
                self.order == old(self).order,
                self.max_time == old(self).max_time,
                self.current == old(self).current,
                self.threads@.len() >= old(self).threads@.len(),
                forall|j: int|
                    0 <= j < old(self).threads@.len() ==> self.threads@[j] == old(
                        self,
                    ).threads@[j],
                forall|j: int|
                    old(self).threads@.len() <= j < self.threads@.len() ==> self.threads@[j]
                        == (RRInfo { valid: false, time: 0, prev: 0, next: 0 }),
            decreases idx + 1 - self.threads.len(),
        {
            self.threads.push(RRInfo { valid: false, time: 0, prev: 0, next: 0 });
        }
        proof {
            assert forall|t: Tid| self.time_of(t) == old(self).time_of(t) by {
                if t + 1 < old(self).threads@.len() {
                } else if t + 1 < self.threads@.len() {
                    assert(self.threads@[t + 1].time == 0);
                }
            }
            assert(self.wf());
        }
        let ghost grown = *self;
        if self.threads[idx].time == 0 {
            let mut info = self.threads[idx];
            info.time = self.max_time;
            self.threads.set(idx, info);
        }
        proof {
            assert(self.wf());
            assert(self.time_of(tid) == if grown.time_of(tid) == 0 {
                grown.quantum()
            } else {
                grown.time_of(tid)
            });
            assert forall|t: Tid| t != tid implies self.time_of(t) == grown.time_of(t) by {
                assert(t + 1 != idx);
            }
        }
        let ghost refilled = *self;
        let prev = self.threads[0].prev;
        proof {
            let q = self.order@;
            if q.len() > 0 {
                assert(prev == q[q.len() - 1]);
                assert(q.contains(q[q.len() - 1]));
            }
            assert(!self.order@.contains(idx));
            assert(prev != idx);
        }
        let mut e = self.threads[idx];
        e.valid = true;
        e.prev = prev;
        e.next = 0;
        self.threads.set(idx, e);
        let mut p = self.threads[prev];
        p.next = idx;
        self.threads.set(prev, p);
        let mut h = self.threads[0];
        h.prev = idx;
        self.threads.set(0, h);
        proof {
            self.order@ = refilled.order@.push(idx);
        }
        proof {
            let q0 = refilled.order@;
            let q = self.order@;
            let n = q.len() as int;
            assert(q[n - 1] == idx);
            assert forall|i: int| 0 <= i < n - 1 implies q[i] == q0[i] && q0.contains(q0[i]) by {}
            if prev == 0 {
                if q0.len() > 0 {
                    assert(q0.contains(q0[q0.len() - 1]));
                    assert(false);
                }
            }
            assert forall|i: int|
                0 <= i < n implies (#[trigger] self.threads@[q[i] as int].next) == if i == n - 1 {
                0usize
            } else {
                q[i + 1]
            } by {
                if i < n - 1 {
                    if i == n - 2 {
                        assert(q[i] == q0[q0.len() - 1] == prev);
                    } else {
                        assert(q[i] == q0[i]);
                        assert(q[i] != idx && q[i] != 0);
                        if q[i] == prev {
                            assert(q0[i] == q0[q0.len() - 1]);
                            assert(false);
                        }
                    }
                }
            }
            assert forall|i: int|
                0 <= i < n implies (#[trigger] self.threads@[q[i] as int].prev) == if i == 0 {
                0usize
            } else {
                q[i - 1]
            } by {
                if i < n - 1 {
                    assert(q[i] == q0[i]);
                    assert(q[i] != idx && q[i] != 0);
                }
            }
            assert forall|j: usize|
                1 <= j < self.threads@.len() && !q.contains(j) implies !(
            #[trigger] self.threads@[j as int].valid) by {
                if j != idx && j != 0 && !q0.contains(j) {
                    if j == prev {
                        assert(q0.len() > 0 && q0.contains(q0[q0.len() - 1]));
                    }
                }
                if q0.contains(j) {
                    let i = choose|i: int| 0 <= i < q0.len() && q0[i] == j;
                    assert(q[i] == j);
                    assert(q.contains(j));
                }
            }
            assert(self.wf());
            assert(self.queue() =~= old(self).queue().push(tid));
            assert forall|t: Tid| t != tid implies self.time_of(t) == refilled.time_of(t) by {
                assert(t + 1 != idx);
            }
        }
    }

    fn pop(&mut self) -> (r: Option<Tid>) {
        let ret = self.threads[0].next;
        if ret != 0 {
            proof {
                let q = self.order@;
                assert(q.len() > 0);
                assert(ret == q[0]);
            }
            let next = self.threads[ret].next;
            let prev = self.threads[ret].prev;
            proof {
                let q = self.order@;
                let n = q.len() as int;
                assert(self.threads@[q[0] as int].prev == 0);
                assert(prev == 0);
                if n == 1 {
                    assert(next == 0);
                } else {
                    assert(next == q[1]);
                    assert(next != 0);
                    assert(next != ret);
                }
            }
            let mut pn = self.threads[next];
            pn.prev = prev;
            self.threads.set(next, pn);
            let mut pp = self.threads[prev];
            pp.next = next;
            self.threads.set(prev, pp);
            let mut e = self.threads[ret];
            e.prev = 0;
            e.next = 0;
            e.valid = false;
            self.threads.set(ret, e);
            self.current = ret;
            let ghost q0 = self.order@;
            proof {
                self.order@ = q0.drop_first();
            }
            proof {
                let q = self.order@;
                let n = q.len() as int;
                let n0 = q0.len() as int;
                assert(q0[0] == ret);
                assert forall|i: int| 0 <= i < n implies #[trigger] q[i] == q0[i + 1] by {}
                assert forall|i: int| 0 <= i < n implies #[trigger] q[i] != ret && q[i] != 0 by {
                    assert(q[i] == q0[i + 1]);
                }
                assert forall|i: int|
                    0 <= i < n implies (#[trigger] self.threads@[q[i] as int].next) == if i == n
                    - 1 {
                    0usize
                } else {
                    q[i + 1]
                } by {
                    let v = q[i] as int;
                    assert(q[i] == q0[i + 1]);
                    if q[i] == next {
                        assert(self.threads@[v].next == old(self).threads@[v].next);
                    } else {
                        assert(self.threads@[v] == old(self).threads@[v]);
                    }
                    assert(old(self).threads@[q0[i + 1] as int].next == if i + 1 == n0 - 1 {
                        0usize
                    } else {
                        q0[i + 2]
                    });
                    if i < n - 1 {
                        assert(q[i + 1] == q0[i + 2]);
                    }
                }
                assert forall|i: int|
                    0 <= i < n implies (#[trigger] self.threads@[q[i] as int].prev) == if i == 0 {
                    0usize
                } else {
                    q[i - 1]
                } by {
                    let v = q[i] as int;
                    assert(q[i] == q0[i + 1]);
                    if q[i] == next {
                        assert(self.threads@[v].prev == 0);
                        assert(i == 0);
                    } else {
                        assert(self.threads@[v] == old(self).threads@[v]);
                        assert(old(self).threads@[q0[i + 1] as int].prev == q0[i]);
                        if i != 0 {
                            assert(q[i - 1] == q0[i]);
                        } else {
                            assert(q0[i] == ret);
                            assert(q0[1] == next);
                            assert(false);
                        }
                    }
                }
                assert forall|j: usize|
                    1 <= j < self.threads@.len() && !q.contains(j) implies !(
                #[trigger] self.threads@[j as int].valid) by {
                    if j != ret {
                        if q0.contains(j) {
                            let i = choose|i: int| 0 <= i < q0.len() && q0[i] == j;
                            assert(i != 0);
                            assert(0 <= i - 1 < q.len() && q[i - 1] == j);
                            assert(q.contains(j));
                        } else {
                            if j == next {
                                assert(self.threads@[j as int].valid == old(
                                    self,
                                ).threads@[j as int].valid);
                            } else {
                                assert(self.threads@[j as int] == old(self).threads@[j as int]);
                            }
                        }
                    }
                }
                assert(self.wf());
                assert(self.queue() =~= old(self).queue().drop_first());
                assert forall|t: Tid| self.time_of(t) == old(self).time_of(t) by {}
            }
            Some(ret - 1)
        } else {
            proof {
                let q = self.order@;
                if q.len() > 0 {
                    assert(self.threads@[0].next == q[0]);
                    assert(q[0] != 0);
                    assert(false);
                }
            }
            None
        }
    }

    fn tick(&mut self) -> (r: bool) {
        let tid = self.current;
        if tid != 0 {
            let mut e = self.threads[tid];
            proof {
                assert(old(self).current_tid() == Some((tid - 1) as usize));
                assert(old(self).time_of((tid - 1) as usize) == e.time as int);
            }
            e.time = e.time - 1;
            self.threads.set(tid, e);
            proof {
                assert(self.wf());
                assert forall|u: Tid| u != (tid - 1) as usize implies self.time_of(u) == old(
                    self,
                ).time_of(u) by {
                    assert(u + 1 != tid);
                }
            }
            e.time == 0
        } else {
            true
        }
    }

    fn exit(&mut self, tid: Tid) {
        let idx = tid + 1;
        if self.current == idx {
            self.current = 0;
        }
    }
}

} // verus!
