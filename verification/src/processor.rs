//! The per-hart dispatcher state: the thread pool, the idle thread, and
//! the thread currently dispatched on the hart.
//!
//! The dispatcher's decisions are made here and verified; the context
//! switches they call for are performed by the platform layer, which is
//! why the fields are public: it needs the context words of `idle` and
//! `current` to feed the switch primitive. The platform drives the idle
//! loop as: `acquire_next`, switch into the returned thread, and on
//! being switched back `retrieve_current`; the timer interrupt calls
//! `tick` and switches to idle exactly when it returns true; a thread
//! terminates through `exit` followed by a final switch to idle.

use crate::process::Thread;
use crate::scheduler::{Scheduler, Status};
use crate::thread_pool::ThreadPool;
use crate::Tid;
use vstd::pervasive::unreached;
use vstd::prelude::*;

verus! {

/// Dispatcher state once initialized.
pub struct ProcessorInner<S: Scheduler> {
    /// The pool that owns every admitted thread.
    pub pool: ThreadPool<S>,
    /// The idle thread the hart falls back to between user threads.
    pub idle: Thread,
    /// The user thread currently dispatched, if any; `None` whenever the
    /// idle thread is executing.
    pub current: Option<(Tid, Box<Thread>)>,
}

/// The per-hart dispatcher; a process-wide singleton in a kernel.
pub struct Processor<S: Scheduler> {
    /// `None` until `init` wires in the pool and the idle thread.
    pub inner: Option<ProcessorInner<S>>,
}

impl<S: Scheduler> Processor<S> {
    /// `init` has run.
    pub open spec fn initialized(self) -> bool {
        self.inner is Some
    }

    /// The pool, once initialized.
    pub open spec fn pool_view(self) -> ThreadPool<S>
        recommends
            self.initialized(),
    {
        self.inner->0.pool
    }

    /// The dispatched thread, once initialized.
    pub open spec fn current_view(self) -> Option<(Tid, Box<Thread>)>
        recommends
            self.initialized(),
    {
        self.inner->0.current
    }

    /// Dispatcher invariant: the pool is consistent, and a dispatched
    /// thread whose slot is still occupied is recorded there as Running
    /// with no parked body, in agreement with the scheduler's current
    /// tid. (A dispatched thread whose slot was freed has exited and is
    /// on its way back to the idle thread.)
    pub open spec fn wf(self) -> bool {
        self.inner matches Some(inner) ==> {
            &&& inner.pool.wf()
            &&& (inner.current matches Some(pr) ==> {
                &&& (pr.0 as int) < inner.pool.capacity()
                &&& (inner.pool.occupied(pr.0) ==> {
                    &&& inner.pool.status_of(pr.0) == Status::Running(pr.0)
                    &&& inner.pool.parked_thread(pr.0) is None
                    &&& inner.pool.sched_current() == Some(pr.0)
                })
            })
        }
    }

    /// An uninitialized processor.
    pub fn new() -> (r: Processor<S>)
        ensures
            !r.initialized(),
            r.wf(),
    {
        Processor { inner: None }
    }

    /// Wire in the idle thread and the thread pool, once, at boot.
    pub fn init(&mut self, idle: Thread, pool: ThreadPool<S>)
        requires
            pool.wf(),
        ensures
            final(self).initialized(),
            final(self).wf(),
            final(self).pool_view() == pool,
            final(self).current_view() is None,
            final(self).inner->0.idle == idle,
    {
        self.inner = Some(ProcessorInner { pool, idle, current: None });
    }

    /// Admit a new thread through the pool, returning the tid it got:
    /// the lowest free slot, so freed tids are reused.
    pub fn add_thread(&mut self, thread: Box<Thread>) -> (r: Tid)
        requires
            old(self).wf(),
            old(self).initialized(),
            exists|t: Tid|
                (t as int) < old(self).pool_view().capacity() && !old(self).pool_view().occupied(
                    t,
                ),
            old(self).current_view() matches Some(pr) ==> old(self).pool_view().occupied(pr.0),
        ensures
            final(self).wf(),
            final(self).initialized(),
            final(self).current_view() == old(self).current_view(),
            final(self).inner->0.idle == old(self).inner->0.idle,
            final(self).pool_view().capacity() == old(self).pool_view().capacity(),
            final(self).pool_view().quantum() == old(self).pool_view().quantum(),
            final(self).pool_view().sched_current() == old(self).pool_view().sched_current(),
            old(self).pool_view().is_first_free(r),
            final(self).pool_view().occupied(r),
            final(self).pool_view().status_of(r) is Ready,
            final(self).pool_view().parked_thread(r) == Some(thread),
            final(self).pool_view().ready_queue() == old(self).pool_view().ready_queue().push(r),
            forall|t: Tid|
                t != r && (t as int) < old(self).pool_view().capacity() ==> #[trigger] final(self).pool_view().occupied(t) == old(self).pool_view().occupied(t) && final(self).pool_view().status_of(t) == old(self).pool_view().status_of(t),
            forall|t: Tid|
                t != r ==> final(self).pool_view().time_of(t) == old(self).pool_view().time_of(
                    t,
                ),
    {
        match &mut self.inner {
            Some(inner) => {
                inner.pool.add(thread)
            },
            None => unreached(),
        }
    }

    /// Dispatch step of the idle loop: move the next ready thread, if
    /// any, out of the pool into `current` and report its tid. The
    /// platform then switches from the idle context into that thread;
    /// `None` means nothing is runnable and the hart should wait for an
    /// interrupt.
    pub fn acquire_next(&mut self) -> (r: Option<Tid>)
        requires
            old(self).wf(),
            old(self).initialized(),
            old(self).current_view() is None,
        ensures
            final(self).wf(),
            final(self).initialized(),
            final(self).inner->0.idle == old(self).inner->0.idle,
            final(self).pool_view().capacity() == old(self).pool_view().capacity(),
            final(self).pool_view().quantum() == old(self).pool_view().quantum(),
            forall|t: Tid|
                final(self).pool_view().time_of(t) == old(self).pool_view().time_of(t),
            old(self).pool_view().ready_queue().len() == 0 ==> r is None
                && final(self).current_view() is None
                && final(self).pool_view().ready_queue() == old(self).pool_view().ready_queue()
                && final(self).pool_view().sched_current() == old(self).pool_view().sched_current(),
            old(self).pool_view().ready_queue().len() > 0 ==> {
                let tid = old(self).pool_view().ready_queue()[0];
                &&& r == Some(tid)
                &&& final(self).current_view() matches Some(pr) && pr.0 == tid && Some(pr.1)
                    == old(self).pool_view().parked_thread(tid)
                &&& final(self).pool_view().ready_queue() == old(self).pool_view().ready_queue().drop_first()
                &&& final(self).pool_view().sched_current() == Some(tid)
                &&& final(self).pool_view().occupied(tid)
                &&& final(self).pool_view().status_of(tid) == Status::Running(tid)
            },
    {
        match &mut self.inner {
            Some(inner) => {
                match inner.pool.acquire() {
                    Some((tid, body)) => {
                        inner.current = Some((tid, body));
                        Some(tid)
                    },
                    None => None,
                }
            },
            None => unreached(),
        }
    }

    /// Reclaim step of the idle loop, after the dispatched thread has
    /// been switched out: take the body out of `current` and hand it
    /// back to the pool, which re-admits it (Running), parks it
    /// (Sleeping), or discards it (slot freed by `exit`).
    pub fn retrieve_current(&mut self)
        requires
            old(self).wf(),
            old(self).initialized(),
            old(self).current_view() is Some,
        ensures
            final(self).wf(),
            final(self).initialized(),
            final(self).inner->0.idle == old(self).inner->0.idle,
            final(self).current_view() is None,
            final(self).pool_view().capacity() == old(self).pool_view().capacity(),
            final(self).pool_view().quantum() == old(self).pool_view().quantum(),
            final(self).pool_view().sched_current() == old(self).pool_view().sched_current(),
            ({
                let tid = (old(self).current_view()->0).0;
                &&& !old(self).pool_view().occupied(tid) ==> final(self).pool_view().ready_queue()
                    == old(self).pool_view().ready_queue() && !final(self).pool_view().occupied(
                    tid,
                )
                &&& old(self).pool_view().occupied(tid) && (old(self).pool_view().status_of(tid)
                    matches Status::Running(_)) ==> final(self).pool_view().ready_queue() == old(self).pool_view().ready_queue().push(tid) && final(self).pool_view().status_of(tid)
                    is Ready && final(self).pool_view().parked_thread(tid) == Some(
                    (old(self).current_view()->0).1,
                )
            }),
    {
        match &mut self.inner {
            Some(inner) => {
                match inner.current.take() {
                    Some((tid, body)) => {
                        proof {
                            inner.pool.lemma_ready_slots();
                            if inner.pool.ready_queue().contains(tid) {
                                let i = choose|i: int|
                                    0 <= i < inner.pool.ready_queue().len()
                                        && inner.pool.ready_queue()[i] == tid;
                                assert(inner.pool.status_of(tid) is Ready);
                            }
                        }
                        inner.pool.retrieve(tid, body);
                    },
                    None => unreached(),
                }
            },
            None => unreached(),
        }
    }

    /// Timer-interrupt decision while a user thread may be executing:
    /// charge one tick and report whether the platform must now preempt
    /// by switching from the running thread into the idle thread. With
    /// no dispatched thread nothing is charged and nothing is switched.
    pub fn tick(&mut self) -> (r: bool)
        requires
            old(self).wf(),
            old(self).initialized(),
            old(self).current_view() matches Some(pr) ==> old(self).pool_view().occupied(pr.0)
                && old(self).pool_view().time_of(pr.0) >= 1,
        ensures
            final(self).wf(),
            final(self).initialized(),
            final(self).inner->0.idle == old(self).inner->0.idle,
            final(self).current_view() == old(self).current_view(),
            final(self).pool_view().capacity() == old(self).pool_view().capacity(),
            final(self).pool_view().quantum() == old(self).pool_view().quantum(),
            final(self).pool_view().ready_queue() == old(self).pool_view().ready_queue(),
            final(self).pool_view().sched_current() == old(self).pool_view().sched_current(),
            match old(self).current_view() {
                Some(pr) => {
                    &&& final(self).pool_view().time_of(pr.0) == old(self).pool_view().time_of(
                        pr.0,
                    ) - 1
                    &&& forall|u: Tid|
                        u != pr.0 ==> final(self).pool_view().time_of(u) == old(self).pool_view().time_of(u)
                    &&& r == (old(self).pool_view().time_of(pr.0) == 1)
                },
                None => {
                    &&& r == false
                    &&& forall|u: Tid|
                        final(self).pool_view().time_of(u) == old(self).pool_view().time_of(u)
                },
            },
    {
        match &mut self.inner {
            Some(inner) => {
                if inner.current.is_some() {
                    inner.pool.tick()
                } else {
                    false
                }
            },
            None => unreached(),
        }
    }

    /// Bookkeeping for a thread that terminates itself with `code`: free
    /// its pool slot, clear the scheduler's current tid, and return the
    /// exiting tid. `current` keeps the body, whose kernel stack still
    /// carries the final switch frame; the platform logs the exit and
    /// switches into the idle context, never to return here.
    pub fn exit(&mut self, _code: usize) -> (r: Tid)
        requires
            old(self).wf(),
            old(self).initialized(),
            old(self).current_view() is Some,
        ensures
            final(self).wf(),
            final(self).initialized(),
            final(self).inner->0.idle == old(self).inner->0.idle,
            final(self).current_view() == old(self).current_view(),
            r == (old(self).current_view()->0).0,
            final(self).pool_view().capacity() == old(self).pool_view().capacity(),
            final(self).pool_view().quantum() == old(self).pool_view().quantum(),
            !final(self).pool_view().occupied(r),
            final(self).pool_view().ready_queue() == old(self).pool_view().ready_queue(),
            !final(self).pool_view().ready_queue().contains(r),
            final(self).pool_view().sched_current() == if old(self).pool_view().sched_current()
                == Some((old(self).current_view()->0).0) {
                None::<Tid>
            } else {
                old(self).pool_view().sched_current()
            },
            forall|t: Tid| final(self).pool_view().time_of(t) == old(self).pool_view().time_of(t),
            forall|t: Tid|
                t != r && (t as int) < old(self).pool_view().capacity() ==> #[trigger] final(self).pool_view().occupied(t) == old(self).pool_view().occupied(t) && final(self).pool_view().status_of(t) == old(self).pool_view().status_of(t) && final(self).pool_view().parked_thread(t) == old(self).pool_view().parked_thread(t),
    {
        match &mut self.inner {
            Some(inner) => {
                let tid = match &inner.current {
                    Some(pr) => pr.0,
                    None => unreached(),
                };
                proof {
                    inner.pool.lemma_ready_slots();
                    if inner.pool.ready_queue().contains(tid) {
                        let i = choose|i: int|
                            0 <= i < inner.pool.ready_queue().len()
                                && inner.pool.ready_queue()[i] == tid;
                        assert(inner.pool.status_of(tid) is Ready);
                    }
                }
                inner.pool.exit(tid);
                tid
            },
            None => unreached(),
        }
    }
}

} // verus!
