//! The round-robin fairness law.
//!
//! `RRModel` is the dispatch state as the scheduler and pool contracts
//! describe it while every admitted thread stays alive: the ready queue
//! (`Scheduler::queue`), the running thread (`Scheduler::current_tid`)
//! and its remaining quantum (`Scheduler::time_of`), and the full
//! quantum (`Scheduler::quantum`). One `rr_step` is one timer tick as
//! the contracts pin it down: `tick` charges the running thread; when
//! its quantum reaches zero the platform preempts, `retrieve` pushes
//! the thread to the tail with a refilled quantum, and `acquire` pops
//! the head to run with its (full) quantum.
//!
//! The law proved here: starting from threads admitted in order `s`,
//! each with a quantum of `qm` ticks, over *any* window of
//! `s.len() * qm` consecutive ticks every thread is charged exactly
//! `qm` ticks, and tick `i` is charged to thread
//! `s[(i / qm) % s.len()]` — admission order, cyclically.

use crate::Tid;
use vstd::arithmetic::div_mod::{
    lemma_fundamental_div_mod, lemma_fundamental_div_mod_converse,
    lemma_mod_division_less_than_divisor,
};
use vstd::prelude::*;

verus! {

/// Round-robin dispatch state with every admitted thread alive: the
/// ready queue, the running thread, its remaining quantum, and the full
/// quantum.
pub struct RRModel {
    /// Ready tids, head first.
    pub queue: Seq<Tid>,
    /// The tid currently running on the hart.
    pub running: Tid,
    /// Ticks the running thread may still use, in `1 ..= quantum`.
    pub rem: int,
    /// The full quantum granted at dispatch.
    pub quantum: int,
}

/// One timer tick: charge the running thread. While its quantum is not
/// exhausted it keeps the hart; otherwise it goes to the tail with a
/// refilled quantum and the head thread is dispatched in its place.
pub open spec fn rr_step(m: RRModel) -> RRModel {
    if m.rem > 1 {
        RRModel { queue: m.queue, running: m.running, rem: m.rem - 1, quantum: m.quantum }
    } else {
        let q = m.queue.push(m.running);
        RRModel { queue: q.drop_first(), running: q[0], rem: m.quantum, quantum: m.quantum }
    }
}

/// The state after `n` ticks from `m`.
pub open spec fn rr_run(m: RRModel, n: nat) -> RRModel
    decreases n,
{
    if n == 0 {
        m
    } else {
        rr_step(rr_run(m, (n - 1) as nat))
    }
}

/// The thread charged for tick `i` (0-based) when dispatch starts at `m`.
pub open spec fn rr_charged(m: RRModel, i: nat) -> Tid {
    rr_run(m, i).running
}

/// The dispatch state at tick `i` for threads admitted in order `s`
/// with quantum `qm`: the thread at position `(i / qm) % s.len()` of
/// the admission order is running, and the queue holds the others in
/// cyclic order after it.
pub open spec fn rr_state_at(s: Seq<Tid>, qm: int, i: nat) -> RRModel {
    let k = s.len() as int;
    RRModel {
        queue: Seq::new((k - 1) as nat, |j: int| s[(i as int / qm + 1 + j) % k]),
        running: s[(i as int / qm) % k],
        rem: qm - i as int % qm,
        quantum: qm,
    }
}

/// How many of the ticks `from .. from + len` are charged to `t`.
pub open spec fn rr_charge_count(m: RRModel, from: nat, len: nat, t: Tid) -> int
    decreases len,
{
    if len == 0 {
        0
    } else {
        rr_charge_count(m, from, (len - 1) as nat, t) + if rr_charged(
            m,
            (from + len - 1) as nat,
        ) == t {
            1int
        } else {
            0int
        }
    }
}

/// A step at quantum exhaustion is exactly what the contracts say a
/// preemption does: `retrieve` re-admits the preempted thread at the
/// tail of the ready queue (refilling its spent quantum) and `acquire`
/// pops the new head to run.
pub proof fn lemma_step_is_requeue_then_dispatch(queue: Seq<Tid>, running: Tid, qm: int)
    ensures
        ({
            let m = rr_step(RRModel { queue, running, rem: 1, quantum: qm });
            &&& m.queue == queue.push(running).drop_first()
            &&& m.running == queue.push(running)[0]
            &&& m.rem == qm
        }),
{
}

/// Running the model from the admission state reaches exactly the
/// closed-form state at every tick.
proof fn lemma_rr_closed_form(s: Seq<Tid>, qm: int, i: nat)
    requires
        s.len() >= 1,
        qm >= 1,
    ensures
        rr_run(rr_state_at(s, qm, 0), i) == rr_state_at(s, qm, i),
    decreases i,
{
    let k = s.len() as int;
    if i == 0 {
        assert(0int / qm == 0 && 0int % qm == 0) by {
            lemma_fundamental_div_mod_converse(0, qm, 0, 0);
        }
    } else {
        let i1 = (i - 1) as nat;
        lemma_rr_closed_form(s, qm, i1);
        let m1 = rr_state_at(s, qm, i1);
        let a = i1 as int / qm;
        let b = i1 as int % qm;
        lemma_fundamental_div_mod(i1 as int, qm);
        lemma_mod_division_less_than_divisor(i1 as int, qm);
        assert(i1 as int == qm * a + b && 0 <= b < qm);
        let m2 = rr_state_at(s, qm, i);
        if b + 1 < qm {
            lemma_fundamental_div_mod_converse(i as int, qm, a, b + 1);
            assert(m2.queue =~= m1.queue);
            assert(rr_step(m1) == m2);
        } else {
            assert((a + 1) * qm == qm * a + qm) by (nonlinear_arith);
            lemma_fundamental_div_mod_converse(i as int, qm, a + 1, 0);
            lemma_fundamental_div_mod(a, k);
            lemma_mod_division_less_than_divisor(a, k);
            assert((a / k + 1) * k == k * (a / k) + k) by (nonlinear_arith);
            lemma_fundamental_div_mod_converse(a + k, k, a / k + 1, a % k);
            assert((a + k) % k == a % k);
            let q = m1.queue.push(m1.running);
            assert(q =~= Seq::new(k as nat, |j: int| s[(a + 1 + j) % k])) by {
                assert forall|j: int| 0 <= j < k implies q[j] == s[(a + 1 + j) % k] by {
                    if j == k - 1 {
                        assert(q[j] == m1.running);
                        assert((a + 1 + j) % k == a % k);
                    }
                }
            }
            assert(m2.queue =~= q.drop_first()) by {
                assert forall|j: int| 0 <= j < k - 1 implies m2.queue[j] == q[j + 1] by {
                    assert(m2.queue[j] == s[(a + 1 + 1 + j) % k]);
                    assert(q[j + 1] == s[(a + 1 + (j + 1)) % k]);
                }
            }
            assert(m2.running == q[0]);
            assert(rr_step(m1) == m2);
        }
    }
}

/// Dispatch order: tick `i` is charged to the thread at position
/// `(i / qm) % s.len()` of the admission order — threads run in
/// admission order, each for `qm` consecutive ticks, cyclically.
pub proof fn lemma_rr_charged_formula(s: Seq<Tid>, qm: int, i: nat)
    requires
        s.len() >= 1,
        qm >= 1,
    ensures
        rr_charged(rr_state_at(s, qm, 0), i) == s[(i as int / qm) % (s.len() as int)],
{
    lemma_rr_closed_form(s, qm, i);
}

/// The charge pattern repeats with period `s.len() * qm`.
proof fn lemma_charged_periodic(s: Seq<Tid>, qm: int, i: nat)
    requires
        s.len() >= 1,
        qm >= 1,
    ensures
        rr_charged(rr_state_at(s, qm, 0), (i + s.len() * qm) as nat) == rr_charged(
            rr_state_at(s, qm, 0),
            i,
        ),
{
    let k = s.len() as int;
    let a = i as int / qm;
    let b = i as int % qm;
    lemma_fundamental_div_mod(i as int, qm);
    lemma_mod_division_less_than_divisor(i as int, qm);
    assert((i as int + k * qm) == qm * (a + k) + b) by (nonlinear_arith)
        requires
            i as int == qm * a + b,
    ;
    lemma_fundamental_div_mod_converse(i as int + k * qm, qm, a + k, b);
    lemma_fundamental_div_mod(a, k);
    lemma_mod_division_less_than_divisor(a, k);
    assert((a / k + 1) * k == k * (a / k) + k) by (nonlinear_arith);
    lemma_fundamental_div_mod_converse(a + k, k, a / k + 1, a % k);
    lemma_rr_charged_formula(s, qm, i);
    lemma_rr_charged_formula(s, qm, (i + s.len() * qm) as nat);
}

/// Sliding a window one tick forward trades its first tick for the one
/// past its end.
proof fn lemma_count_slide(m: RRModel, w: nat, len: nat, t: Tid)
    ensures
        rr_charge_count(m, (w + 1) as nat, len, t) == rr_charge_count(m, w, len, t) - (
        if rr_charged(m, w) == t {
            1int
        } else {
            0int
        }) + (if rr_charged(m, (w + len) as nat) == t {
            1int
        } else {
            0int
        }),
    decreases len,
{
    if len == 0 {
    } else {
        lemma_count_slide(m, w, (len - 1) as nat, t);
    }
}

/// Counting splits over adjacent windows.
proof fn lemma_count_split(m: RRModel, from: nat, l1: nat, l2: nat, t: Tid)
    ensures
        rr_charge_count(m, from, (l1 + l2) as nat, t) == rr_charge_count(m, from, l1, t)
            + rr_charge_count(m, (from + l1) as nat, l2, t),
    decreases l2,
{
    if l2 == 0 {
    } else {
        lemma_count_split(m, from, l1, (l2 - 1) as nat, t);
    }
}

/// A window whose every tick is charged to `c` counts `len` for `c` and
/// nothing for anyone else.
proof fn lemma_count_block(m: RRModel, from: nat, len: nat, t: Tid, c: Tid)
    requires
        forall|i: nat| from <= i < from + len ==> rr_charged(m, i) == c,
    ensures
        rr_charge_count(m, from, len, t) == if c == t {
            len as int
        } else {
            0int
        },
    decreases len,
{
    if len == 0 {
    } else {
        lemma_count_block(m, from, (len - 1) as nat, t, c);
        assert(rr_charged(m, (from + len - 1) as nat) == c);
    }
}

/// Over the first `j` quanta, a thread among the first `j` admitted is
/// charged exactly `qm` ticks and every other thread none.
proof fn lemma_count_base_window(s: Seq<Tid>, qm: int, j: int, t: Tid)
    requires
        s.len() >= 1,
        qm >= 1,
        0 <= j <= s.len(),
        forall|x: int, y: int| 0 <= x < y < s.len() ==> s[x] != s[y],
    ensures
        rr_charge_count(rr_state_at(s, qm, 0), 0, (j * qm) as nat, t) == if exists|jt: int|
            0 <= jt < j && s[jt] == t {
            qm
        } else {
            0int
        },
    decreases j,
{
    let m0 = rr_state_at(s, qm, 0);
    let k = s.len() as int;
    if j == 0 {
        assert(j * qm == 0) by (nonlinear_arith)
            requires
                j == 0,
        ;
    } else {
        lemma_count_base_window(s, qm, j - 1, t);
        assert(j * qm == (j - 1) * qm + qm) by (nonlinear_arith);
        assert((j - 1) * qm >= 0) by (nonlinear_arith)
            requires
                j >= 1 && qm >= 1,
        ;
        lemma_count_split(m0, 0, ((j - 1) * qm) as nat, qm as nat, t);
        assert forall|i: nat| (j - 1) * qm <= i < j * qm implies rr_charged(m0, i) == s[j
            - 1] by {
            lemma_rr_charged_formula(s, qm, i);
            assert(i as int == qm * (j - 1) + (i as int - (j - 1) * qm)) by (nonlinear_arith);
            assert(0 <= i as int - (j - 1) * qm < qm) by (nonlinear_arith)
                requires
                    (j - 1) * qm <= i as int,
                    (i as int) < j * qm,
            ;
            lemma_fundamental_div_mod_converse(
                i as int,
                qm,
                j - 1,
                i as int - (j - 1) * qm,
            );
            assert(i as int / qm == j - 1);
            lemma_fundamental_div_mod_converse(j - 1, k, 0, j - 1);
            assert((j - 1) % k == j - 1);
        }
        lemma_count_block(m0, ((j - 1) * qm) as nat, qm as nat, t, s[j - 1]);
        let pre = rr_charge_count(m0, 0, ((j - 1) * qm) as nat, t);
        let blk = rr_charge_count(m0, ((j - 1) * qm) as nat, qm as nat, t);
        assert(((j - 1) * qm) as nat + (qm as nat) == (j * qm) as nat);
        assert(rr_charge_count(m0, 0, (j * qm) as nat, t) == pre + blk);
        if s[j - 1] == t {
            assert(blk == qm);
            assert(!(exists|jt: int| 0 <= jt < j - 1 && s[jt] == t)) by {
                if exists|jt: int| 0 <= jt < j - 1 && s[jt] == t {
                    let jt = choose|jt: int| 0 <= jt < j - 1 && s[jt] == t;
                    assert(s[jt] != s[j - 1]);
                }
            }
            assert(pre == 0);
            assert(0 <= j - 1 < j && s[j - 1] == t);
            assert(exists|jt: int| 0 <= jt < j && s[jt] == t);
        } else {
            assert(blk == 0);
            if exists|jt: int| 0 <= jt < j && s[jt] == t {
                let jt = choose|jt: int| 0 <= jt < j && s[jt] == t;
                assert(0 <= jt < j - 1 && s[jt] == t);
                assert(exists|x: int| 0 <= x < j - 1 && s[x] == t);
                assert(pre == qm);
            } else {
                assert(!(exists|jt: int| 0 <= jt < j - 1 && s[jt] == t)) by {
                    if exists|jt: int| 0 <= jt < j - 1 && s[jt] == t {
                        let jt = choose|jt: int| 0 <= jt < j - 1 && s[jt] == t;
                        assert(0 <= jt < j && s[jt] == t);
                    }
                }
                assert(pre == 0);
            }
        }
    }
}

/// Any window of `s.len() * qm` ticks counts the same as the first one.
proof fn lemma_count_window_invariant(s: Seq<Tid>, qm: int, w: nat, t: Tid)
    requires
        s.len() >= 1,
        qm >= 1,
    ensures
        rr_charge_count(rr_state_at(s, qm, 0), w, (s.len() * qm) as nat, t) == rr_charge_count(
            rr_state_at(s, qm, 0),
            0,
            (s.len() * qm) as nat,
            t,
        ),
    decreases w,
{
    let m0 = rr_state_at(s, qm, 0);
    let p = (s.len() * qm) as nat;
    if w == 0 {
    } else {
        let w1 = (w - 1) as nat;
        lemma_count_window_invariant(s, qm, w1, t);
        lemma_count_slide(m0, w1, p, t);
        lemma_charged_periodic(s, qm, w1);
    }
}

/// Fairness (round-robin): with threads admitted in order `s`, each
/// alive throughout and granted a quantum of `qm` ticks, every thread
/// is charged exactly `qm` ticks within any window of `s.len() * qm`
/// consecutive ticks.
pub proof fn lemma_round_robin_fairness(s: Seq<Tid>, qm: int, w: nat, t: Tid)
    requires
        s.len() >= 1,
        qm >= 1,
        forall|x: int, y: int| 0 <= x < y < s.len() ==> s[x] != s[y],
        s.contains(t),
    ensures
        rr_charge_count(rr_state_at(s, qm, 0), w, (s.len() * qm) as nat, t) == qm,
{
    let k = s.len() as int;
    lemma_count_window_invariant(s, qm, w, t);
    lemma_count_base_window(s, qm, k, t);
    let jt = choose|jt: int| 0 <= jt < s.len() && s[jt] == t;
    assert(exists|x: int| 0 <= x < k && s[x] == t);
}

} // verus!
