use vstd::prelude::*;
use vstd::string::StringExecFns;
use crate::error::PengError;
use crate::binding::PengBinded;
use crate::call::{PengCallStack, PengCell};
use crate::heap::{runnable_heap, PengHeap};
use crate::instruction::PengInstruction;
use crate::runtime::{step_thread, thread_step, PengThreadStep};
use crate::names::PengNamePool;
use crate::thread::PengThreadState;
use crate::utils::PengHeapPtr;

verus! {

/// What the scheduler does with a thread in its round.
#[derive(Debug, Clone, Copy, PartialEq, Eq, Structural)]
pub enum PengSchedule {
    /// Run one step of it.
    Step,
    /// It is done: drop it from the active threads.
    Remove,
    /// Leave it for a later round.
    Skip,
}

/// A running thread is stepped; a finished, failed or cancelled one is dropped; a paused,
/// waiting or sleeping one waits.
pub fn schedule_thread(state: &PengThreadState) -> (res: PengSchedule)
    ensures
        res == match *state {
            PengThreadState::Running => PengSchedule::Step,
            PengThreadState::Finished | PengThreadState::Failed | PengThreadState::Cancelled => PengSchedule::Remove,
            _ => PengSchedule::Skip,
        },
{
    match state {
        PengThreadState::Running => PengSchedule::Step,
        PengThreadState::Finished | PengThreadState::Failed | PengThreadState::Cancelled => PengSchedule::Remove,
        _ => PengSchedule::Skip,
    }
}

/// After a round: it is an error when no thread was running in it.
pub fn end_round(any_running: bool) -> (res: Result<(), PengError>)
    ensures
        any_running ==> res is Ok,
        !any_running ==> (res matches Err(PengError::InvalidState(m)) && m@ == "no running threads"@),
{
    if any_running {
        Ok(())
    } else {
        Err(PengError::InvalidState(String::from_str("no running threads")))
    }
}

/// Whether it is time to collect garbage: the time since the last collection has reached
/// the interval (both in the same unit, measured by the caller).
pub fn collection_due(elapsed: u128, interval: u128) -> (res: bool)
    ensures
        res == (elapsed >= interval),
{
    elapsed >= interval
}

/// What a thread ended with, once it did.
pub enum PengThreadResult {
    Pending,
    Returned(PengBinded<PengCell>),
    Failed(PengError),
}

/// A thread: its state, its stacks, its time slice and its result.
pub struct PengThread {
    pub state: PengThreadState,
    pub call: PengCallStack,
    pub quantum: usize,
    pub result: PengThreadResult,
}

/// How a thread's turn ended: it went on, it finished or failed (its result says with
/// what), or its next step is a native call or an instruction the library does not run.
pub enum PengTurn {
    Went,
    Finished(PengBinded<PengCell>),
    Failed,
    NativeCall,
    NotHandled(PengInstruction),
}

/// A turn of a running thread: one step; a thread that returned is finished with its
/// value, one that failed is failed with its error, one that goes on has its time slice
/// renewed when it was used up.
pub open spec fn turn_effect(t0: PengThread, t1: PengThread, step: Result<PengThreadStep, PengError>, res: PengTurn) -> bool {
    match step {
        Ok(PengThreadStep::Finished(v)) => res == PengTurn::Finished(v) && t1.state == PengThreadState::Finished
            && t1.result == PengThreadResult::Returned(v) && t1.quantum == t0.quantum,
        Ok(PengThreadStep::Continued) => res == PengTurn::Went && t1.state == t0.state && t1.result == t0.result
            && t1.quantum == (if t0.quantum == 0 {
            1
        } else {
            t0.quantum
        }),
        Ok(PengThreadStep::NativeCall) => res == PengTurn::NativeCall && t1.state == t0.state && t1.result
            == t0.result && t1.quantum == t0.quantum,
        Ok(PengThreadStep::NotHandled(i)) => res == PengTurn::NotHandled(i) && t1.state == t0.state && t1.result
            == t0.result && t1.quantum == t0.quantum,
        Err(e) => res == PengTurn::Failed && t1.state == PengThreadState::Failed && t1.result
            == PengThreadResult::Failed(e) && t1.quantum == t0.quantum,
    }
}

/// Gives a running thread its turn (see `turn_effect` and `thread_step`).
pub fn thread_turn(heap: &mut PengHeap, thread: &mut PengThread, names: &PengNamePool) -> (res: PengTurn)
    requires
        old(heap).next_ptr() < usize::MAX,
        runnable_heap(old(heap)@),
    ensures
        runnable_heap(final(heap)@),
        final(heap).next_ptr() <= old(heap).next_ptr() + 1,
        final(heap).next_ptr() == crate::heap::next_after(old(heap)@, final(heap)@, old(heap).next_ptr()),
        exists|step: Result<PengThreadStep, PengError>|
            thread_step(old(heap)@, old(heap).next_ptr(), names@, old(thread).call, final(heap)@, final(thread).call, step)
                && #[trigger] turn_effect(*old(thread), *final(thread), step, res),
{
    let step = step_thread(heap, &mut thread.call, names);
    let ghost s = step;
    let res = match step {
        Ok(PengThreadStep::Finished(v)) => {
            thread.result = PengThreadResult::Returned(crate::call::copy_cell(&v));
            thread.state = PengThreadState::Finished;
            PengTurn::Finished(v)
        },
        Ok(PengThreadStep::Continued) => {
            if thread.quantum == 0 {
                thread.quantum = 1;
            }
            PengTurn::Went
        },
        Ok(PengThreadStep::NativeCall) => PengTurn::NativeCall,
        Ok(PengThreadStep::NotHandled(i)) => PengTurn::NotHandled(i),
        Err(e) => {
            thread.result = PengThreadResult::Failed(e);
            thread.state = PengThreadState::Failed;
            PengTurn::Failed
        },
    };
    proof {
        assert(turn_effect(*old(thread), *thread, s, res));
    }
    res
}

/// How a round of the scheduler ended: the main thread returned or failed (its result
/// says with what), a thread needs a native call or runs an instruction the library does
/// not, or every running thread had its turn.
pub enum PengRoundEnd {
    MainReturned(PengBinded<PengCell>),
    MainFailed,
    NativeCall(usize),
    NotHandled(usize, PengInstruction),
    Continue,
}

/// What a round does from the thread at `k` on, with the heap `h` (next address `next`),
/// the pooled names `names` and the threads `ts`, `ran` saying whether a thread was
/// running before `k`: each running thread in turn takes one step on the heap the turns before it left (see
/// `thread_step` and `turn_effect`); the round stops with `MainReturned` or `MainFailed`
/// when the thread at `main` finishes or fails, with `NativeCall` or `NotHandled` when a
/// turn asks for that, and otherwise ends after the last thread with `Continue`, or with
/// the error "no running threads" when none ran. `hf`, `tsf` and `res` are the heap, the
/// threads and the result at the end.
pub open spec fn round_from(
    h: Map<usize, crate::heap::PengHeapValueV>,
    next: int,
    names: Seq<Seq<char>>,
    ts: Seq<PengThread>,
    k: int,
    main: usize,
    ran: bool,
    hf: Map<usize, crate::heap::PengHeapValueV>,
    tsf: Seq<PengThread>,
    res: Result<PengRoundEnd, PengError>,
) -> bool
    decreases ts.len() - k,
{
    if k < 0 || k >= ts.len() {
        &&& hf == h
        &&& tsf == ts
        &&& if ran {
            res matches Ok(PengRoundEnd::Continue)
        } else {
            res matches Err(PengError::InvalidState(m)) && m@ == "no running threads"@
        }
    } else if !(ts[k].state is Running) {
        round_from(h, next, names, ts, k + 1, main, ran, hf, tsf, res)
    } else {
        exists|step: Result<PengThreadStep, PengError>, t1: PengThread, h1: Map<usize, crate::heap::PengHeapValueV>, turn: PengTurn|
            #[trigger] thread_step(h, next, names, ts[k].call, h1, t1.call, step) && #[trigger] turn_effect(ts[k], t1, step, turn)
                && {
                let ts1 = ts.update(k, t1);
                let stop = hf == h1 && tsf == ts1;
                let go_on = round_from(h1, crate::heap::next_after(h, h1, next), names, ts1, k + 1, main, true, hf, tsf, res);
                match turn {
                    PengTurn::Finished(v) => if k == main {
                        stop && res == Ok::<PengRoundEnd, PengError>(PengRoundEnd::MainReturned(v))
                    } else {
                        go_on
                    },
                    PengTurn::Failed => if k == main {
                        stop && res matches Ok(PengRoundEnd::MainFailed)
                    } else {
                        go_on
                    },
                    PengTurn::NativeCall => stop && res == Ok::<PengRoundEnd, PengError>(
                        PengRoundEnd::NativeCall(k as usize),
                    ),
                    PengTurn::NotHandled(i) => stop && res == Ok::<PengRoundEnd, PengError>(
                        PengRoundEnd::NotHandled(k as usize, i),
                    ),
                    PengTurn::Went => go_on,
                }
            }
    }
}

/// One round of the scheduler (see `round_from`).
pub fn scheduler_round(heap: &mut PengHeap, threads: &mut Vec<PengThread>, main: usize, names: &PengNamePool) -> (res: Result<
    PengRoundEnd,
    PengError,
>)
    requires
        old(heap).next_ptr() + old(threads)@.len() < usize::MAX,
        runnable_heap(old(heap)@),
    ensures
        round_from(old(heap)@, old(heap).next_ptr(), names@, old(threads)@, 0, main, false, final(heap)@, final(threads)@, res),
        final(threads)@.len() == old(threads)@.len(),
        forall|i: int|
            0 <= i < old(threads)@.len() && !(old(threads)@[i].state is Running) ==> #[trigger] final(threads)@[i]
                == old(threads)@[i],
        (forall|i: int| 0 <= i < old(threads)@.len() ==> !(#[trigger] old(threads)@[i].state is Running)) <==> (
        res matches Err(PengError::InvalidState(m)) && m@ == "no running threads"@),
        res is Err ==> final(threads)@ == old(threads)@ && final(heap)@ == old(heap)@,
{
    let ghost h0 = heap@;
    let ghost n0 = heap.next_ptr();
    let ghost ts0 = threads@;
    let n = threads.len();
    let mut any_running = false;
    let mut i: usize = 0;
    while i < n
        invariant
            n == ts0.len(),
            h0 == old(heap)@,
            n0 == old(heap).next_ptr(),
            ts0 == old(threads)@,
            threads@.len() == n,
            i <= n,
            forall|k: int| i <= k < n ==> #[trigger] threads@[k] == ts0[k],
            forall|k: int| 0 <= k < i && !(ts0[k].state is Running) ==> #[trigger] threads@[k] == ts0[k],
            any_running <==> exists|k: int| 0 <= k < i && (#[trigger] ts0[k].state is Running),
            !any_running ==> threads@ == ts0 && heap@ == h0 && heap.next_ptr() == n0,
            heap.next_ptr() + (n - i) < usize::MAX,
            runnable_heap(heap@),
            forall|hf: Map<usize, crate::heap::PengHeapValueV>, tsf: Seq<PengThread>, r: Result<PengRoundEnd, PengError>|
                #[trigger] round_from(heap@, heap.next_ptr(), names@, threads@, i as int, main, any_running, hf, tsf, r)
                    ==> round_from(h0, n0, names@, ts0, 0, main, false, hf, tsf, r),
        decreases n - i,
    {
        let ghost hc = heap@;
        let ghost nc = heap.next_ptr();
        let ghost tc = threads@;
        let ghost ran = any_running;
        match schedule_thread(&threads[i].state) {
            PengSchedule::Step => {
                any_running = true;
                let mut thread = threads.remove(i);
                proof {
                    assert(thread == tc[i as int]);
                }
                let turn = thread_turn(heap, &mut thread, names);
                threads.insert(i, thread);
                let ghost t1 = thread;
                let ghost h1 = heap@;
                let ghost step = choose|step: Result<PengThreadStep, PengError>|
                    thread_step(hc, nc, names@, tc[i as int].call, h1, t1.call, step) && #[trigger] turn_effect(
                        tc[i as int],
                        t1,
                        step,
                        turn,
                    );
                proof {
                    assert(threads@ =~= tc.update(i as int, t1));
                    assert(thread_step(hc, nc, names@, tc[i as int].call, h1, t1.call, step));
                    assert(turn_effect(tc[i as int], t1, step, turn));
                }
                match turn {
                    PengTurn::Finished(v) => {
                        if i == main {
                            let res = Ok(PengRoundEnd::MainReturned(v));
                            proof {
                                assert(round_from(hc, nc, names@, tc, i as int, main, ran, heap@, threads@, res));
                            }
                            return res;
                        }
                    },
                    PengTurn::Failed => {
                        if i == main {
                            let res = Ok(PengRoundEnd::MainFailed);
                            proof {
                                assert(round_from(hc, nc, names@, tc, i as int, main, ran, heap@, threads@, res));
                            }
                            return res;
                        }
                    },
                    PengTurn::NativeCall => {
                        let res = Ok(PengRoundEnd::NativeCall(i));
                        proof {
                            assert(round_from(hc, nc, names@, tc, i as int, main, ran, heap@, threads@, res));
                        }
                        return res;
                    },
                    PengTurn::NotHandled(instruction) => {
                        let res = Ok(PengRoundEnd::NotHandled(i, instruction));
                        proof {
                            assert(round_from(hc, nc, names@, tc, i as int, main, ran, heap@, threads@, res));
                        }
                        return res;
                    },
                    PengTurn::Went => {},
                }
                proof {
                    assert forall|hf: Map<usize, crate::heap::PengHeapValueV>, tsf: Seq<PengThread>, r: Result<PengRoundEnd, PengError>|
                        #[trigger] round_from(heap@, heap.next_ptr(), names@, threads@, i + 1, main, any_running, hf, tsf, r)
                        implies round_from(h0, n0, names@, ts0, 0, main, false, hf, tsf, r) by {
                        assert(thread_step(hc, nc, names@, tc[i as int].call, h1, t1.call, step));
                        assert(turn_effect(tc[i as int], t1, step, turn));
                        assert(round_from(hc, nc, names@, tc, i as int, main, ran, hf, tsf, r));
                    }
                }
            },
            _ => {
                proof {
                    assert forall|hf: Map<usize, crate::heap::PengHeapValueV>, tsf: Seq<PengThread>, r: Result<PengRoundEnd, PengError>|
                        #[trigger] round_from(heap@, heap.next_ptr(), names@, threads@, i + 1, main, any_running, hf, tsf, r)
                        implies round_from(h0, n0, names@, ts0, 0, main, false, hf, tsf, r) by {
                        assert(round_from(hc, nc, names@, tc, i as int, main, ran, hf, tsf, r));
                    }
                }
            },
        }
        i = i + 1;
    }
    let res = match end_round(any_running) {
        Ok(()) => Ok(PengRoundEnd::Continue),
        Err(e) => Err(e),
    };
    proof {
        assert(round_from(heap@, heap.next_ptr(), names@, threads@, n as int, main, any_running, heap@, threads@, res));
    }
    res
}

} // verus!

verus! {

/// The addresses a thread keeps alive: the references on its stack and the functions its
/// frames run.
pub open spec fn thread_keeps(t: PengThread, k: usize) -> bool {
    (exists|i: int| 0 <= i < t.call.stack@.len() && t.call.stack@[i].bound() == PengCell::Reference(PengHeapPtr(k)))
        || (exists|i: int| 0 <= i < t.call.frames@.len() && t.call.frames@[i].procedure == PengHeapPtr(k))
}

/// The roots of a collection: the pinned addresses and what the threads keep alive.
pub fn collection_roots(pinned: &Vec<PengHeapPtr>, threads: &Vec<PengThread>) -> (res: Vec<PengHeapPtr>)
    ensures
        forall|k: usize|
            crate::heap::root_set(res@).contains(k) <==> (crate::heap::root_set(pinned@).contains(k) || exists|j: int|
                0 <= j < threads@.len() && #[trigger] thread_keeps(threads@[j], k)),
{
    let mut roots: Vec<PengHeapPtr> = Vec::new();
    let mut i: usize = 0;
    while i < pinned.len()
        invariant
            i <= pinned@.len(),
            roots@ == pinned@.take(i as int),
        decreases pinned@.len() - i,
    {
        roots.push(pinned[i]);
        assert(roots@ =~= pinned@.take(i + 1));
        i = i + 1;
    }
    assert(roots@ =~= pinned@);
    let mut j: usize = 0;
    while j < threads.len()
        invariant
            j <= threads@.len(),
            forall|k: usize|
                crate::heap::root_set(roots@).contains(k) <==> (crate::heap::root_set(pinned@).contains(k) || exists|m: int|
                    0 <= m < j && #[trigger] thread_keeps(threads@[m], k)),
        decreases threads@.len() - j,
    {
        let t = &threads[j];
        let ghost r0 = roots@;
        let mut a: usize = 0;
        while a < t.call.stack.len()
            invariant
                a <= t.call.stack@.len(),
                r0.len() <= roots@.len(),
                roots@.take(r0.len() as int) == r0,
                forall|x: int|
                    r0.len() <= x < roots@.len() ==> exists|y: int|
                        0 <= y < a && t.call.stack@[y].bound() == PengCell::Reference(#[trigger] roots@[x]),
                forall|y: int|
                    0 <= y < a && (#[trigger] t.call.stack@[y]).bound() is Reference ==> exists|x: int|
                        r0.len() <= x < roots@.len() && t.call.stack@[y].bound() == PengCell::Reference(roots@[x]),
            decreases t.call.stack@.len() - a,
        {
            let ghost before = roots@;
            if let PengCell::Reference(p) = t.call.stack[a].value() {
                roots.push(*p);
            }
            proof {
                assert(roots@.take(r0.len() as int) =~= r0);
                assert forall|x: int| r0.len() <= x < roots@.len() implies exists|y: int|
                    0 <= y < a + 1 && t.call.stack@[y].bound() == PengCell::Reference(#[trigger] roots@[x]) by {
                    if x < before.len() {
                        assert(roots@[x] == before[x]);
                    }
                }
                assert forall|y: int| 0 <= y < a + 1 && (#[trigger] t.call.stack@[y]).bound() is Reference implies exists|x: int|
                    r0.len() <= x < roots@.len() && t.call.stack@[y].bound() == PengCell::Reference(roots@[x]) by {
                    if y < a {
                        let x = choose|x: int| r0.len() <= x < before.len() && t.call.stack@[y].bound() == PengCell::Reference(before[x]);
                        assert(roots@[x] == before[x]);
                    } else {
                        assert(roots@[roots@.len() - 1] == t.call.stack@[y].bound()->Reference_0);
                    }
                }
            }
            a = a + 1;
        }
        let ghost r1 = roots@;
        let mut b: usize = 0;
        while b < t.call.frames.len()
            invariant
                b <= t.call.frames@.len(),
                r1.len() <= roots@.len(),
                roots@.take(r1.len() as int) == r1,
                forall|x: int|
                    r1.len() <= x < roots@.len() ==> exists|y: int| 0 <= y < b && t.call.frames@[y].procedure == #[trigger] roots@[x],
                forall|y: int|
                    0 <= y < b ==> exists|x: int| r1.len() <= x < roots@.len() && (#[trigger] t.call.frames@[y]).procedure == roots@[x],
            decreases t.call.frames@.len() - b,
        {
            let ghost before = roots@;
            roots.push(t.call.frames[b].procedure);
            proof {
                assert(roots@.take(r1.len() as int) =~= r1);
                assert forall|x: int| r1.len() <= x < roots@.len() implies exists|y: int|
                    0 <= y < b + 1 && t.call.frames@[y].procedure == #[trigger] roots@[x] by {
                    if x < before.len() {
                        assert(roots@[x] == before[x]);
                    }
                }
                assert forall|y: int| 0 <= y < b + 1 implies exists|x: int|
                    r1.len() <= x < roots@.len() && (#[trigger] t.call.frames@[y]).procedure == roots@[x] by {
                    if y < b {
                        let x = choose|x: int| r1.len() <= x < before.len() && t.call.frames@[y].procedure == before[x];
                        assert(roots@[x] == before[x]);
                    } else {
                        assert(roots@[roots@.len() - 1] == t.call.frames@[y].procedure);
                    }
                }
            }
            b = b + 1;
        }
        proof {
            assert forall|k: usize|
                crate::heap::root_set(roots@).contains(k) <==> (crate::heap::root_set(pinned@).contains(k) || exists|m: int|
                    0 <= m < j + 1 && #[trigger] thread_keeps(threads@[m], k)) by {
                if crate::heap::root_set(roots@).contains(k) {
                    let x = choose|x: int| 0 <= x < roots@.len() && roots@[x].0 == k;
                    if x < r0.len() {
                        assert(roots@[x] == r0[x]);
                        assert(crate::heap::root_set(r0).contains(k));
                    } else if x < r1.len() {
                        assert(roots@[x] == r1[x]);
                        let y = choose|y: int| 0 <= y < t.call.stack@.len() && t.call.stack@[y].bound() == PengCell::Reference(r1[x]);
                        assert(thread_keeps(threads@[j as int], k));
                    } else {
                        let y = choose|y: int| 0 <= y < t.call.frames@.len() && t.call.frames@[y].procedure == roots@[x];
                        assert(thread_keeps(threads@[j as int], k));
                    }
                }
                if crate::heap::root_set(r0).contains(k) {
                    let x = choose|x: int| 0 <= x < r0.len() && r0[x].0 == k;
                    assert(roots@[x] == r0[x]);
                }
                if thread_keeps(threads@[j as int], k) {
                    if exists|y: int| 0 <= y < t.call.stack@.len() && t.call.stack@[y].bound() == PengCell::Reference(PengHeapPtr(k)) {
                        let y = choose|y: int| 0 <= y < t.call.stack@.len() && t.call.stack@[y].bound() == PengCell::Reference(PengHeapPtr(k));
                        let x = choose|x: int| r0.len() <= x < r1.len() && t.call.stack@[y].bound() == PengCell::Reference(r1[x]);
                        assert(roots@[x] == r1[x]);
                    } else {
                        let y = choose|y: int| 0 <= y < t.call.frames@.len() && t.call.frames@[y].procedure == PengHeapPtr(k);
                        let x = choose|x: int| r1.len() <= x < roots@.len() && t.call.frames@[y].procedure == roots@[x];
                    }
                }
            }
        }
        j = j + 1;
    }
    roots
}

} // verus!
