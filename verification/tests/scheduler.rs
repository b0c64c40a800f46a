use penguin::error::PengError;
use penguin::scheduler::{collection_due, end_round, schedule_thread, PengSchedule};
use penguin::thread::PengThreadState;
use penguin::utils::PengHeapPtr;

#[test]
fn threads_are_stepped_dropped_or_left() {
    assert_eq!(schedule_thread(&PengThreadState::Running), PengSchedule::Step);
    assert_eq!(schedule_thread(&PengThreadState::Finished), PengSchedule::Remove);
    assert_eq!(schedule_thread(&PengThreadState::Cancelled), PengSchedule::Remove);
    assert_eq!(schedule_thread(&PengThreadState::Paused), PengSchedule::Skip);
    assert_eq!(schedule_thread(&PengThreadState::Waiting(PengHeapPtr(1))), PengSchedule::Skip);
    assert_eq!(schedule_thread(&PengThreadState::Sleeping(std::time::Instant::now())), PengSchedule::Skip);
}

#[test]
fn rounds_need_a_running_thread() {
    assert!(end_round(true).is_ok());
    match end_round(false) {
        Err(PengError::InvalidState(m)) => assert_eq!(m, "no running threads"),
        _ => panic!("expected an error"),
    }
    assert!(collection_due(10, 10));
    assert!(!collection_due(9, 10));
}

use penguin::binding::PengBinded;
use penguin::call::{PengCallStack, PengCell};
use penguin::frame::PengFrame;
use penguin::function::PengBytecodeFunctionParams;
use penguin::heap::{PengFunctionKind, PengHeap, PengHeapValue};
use penguin::instruction::PengInstruction;
use penguin::position::PengPosition;
use penguin::scheduler::{scheduler_round, PengRoundEnd, PengThread, PengThreadResult};

fn thread_running(f: PengHeapPtr, state: PengThreadState) -> PengThread {
    PengThread {
        state,
        call: PengCallStack { stack: vec![], frames: vec![PengFrame::new(f, 0, 0)] },
        quantum: 0,
        result: PengThreadResult::Pending,
    }
}

#[test]
fn rounds_run_threads_until_main_returns() {
    let mut heap = PengHeap::new();
    let one = heap.create_heap_value(PengHeapValue::Cell(PengCell::Int(1)));
    let code = vec![PengInstruction::PushHeap(one), PengInstruction::Return];
    let positions = vec![PengPosition::new(0, 1, None), PengPosition::new(0, 2, None)];
    let f = heap.create_heap_value(PengHeapValue::Function(
        PengFunctionKind::Bytecode(PengBytecodeFunctionParams::Fixed(0)),
        code,
        positions,
        vec![],
    ));
    let mut threads = vec![thread_running(f, PengThreadState::Paused), thread_running(f, PengThreadState::Running)];
    assert!(matches!(scheduler_round(&mut heap, &mut threads, 1, &penguin::names::PengNamePool::new()), Ok(PengRoundEnd::Continue)));
    assert_eq!(threads[1].quantum, 1);
    assert_eq!(threads[0].call.frames[0].program_counter, 0);
    match scheduler_round(&mut heap, &mut threads, 1, &penguin::names::PengNamePool::new()) {
        Ok(PengRoundEnd::MainReturned(v)) => assert_eq!(*v.value(), PengCell::Int(1)),
        _ => panic!("expected the main thread to return"),
    }
    assert!(matches!(threads[1].state, PengThreadState::Finished));
    match scheduler_round(&mut heap, &mut threads, 1, &penguin::names::PengNamePool::new()) {
        Err(PengError::InvalidState(m)) => assert_eq!(m, "no running threads"),
        _ => panic!("expected no running thread"),
    }
    let _ = PengBinded::Mutable(PengCell::Nil);
}

#[test]
fn roots_are_pinned_values_and_what_threads_hold() {
    let f = PengHeapPtr(3);
    let mut t = thread_running(f, PengThreadState::Running);
    t.call.stack.push(PengBinded::Mutable(PengCell::Reference(PengHeapPtr(8))));
    t.call.stack.push(PengBinded::Mutable(PengCell::Int(8)));
    let roots = penguin::scheduler::collection_roots(&vec![PengHeapPtr(1)], &vec![t]);
    assert_eq!(roots, vec![PengHeapPtr(1), PengHeapPtr(8), PengHeapPtr(3)]);
}
