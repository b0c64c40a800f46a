use penguin::binding::PengBinded;
use penguin::call::{PengCallStack, PengCell};
use penguin::error::PengError;
use penguin::frame::PengFrame;
use penguin::instruction::PengInstruction;
use penguin::runtime::{execute_stack_instruction, PengStackStep};
use penguin::utils::PengHeapPtr;
use penguin::names::PengNamePool;

fn thread(cells: Vec<PengBinded<PengCell>>, base: usize) -> PengCallStack {
    PengCallStack { stack: cells, frames: vec![PengFrame::new(PengHeapPtr(0), base, 0)] }
}

fn tops(t: &PengCallStack) -> Vec<PengCell> {
    t.stack.iter().map(|c| *c.value()).collect()
}

#[test]
fn locals_are_read_and_written_from_the_frame_base() {
    let mut t = thread(vec![PengBinded::Mutable(PengCell::Int(7)), PengBinded::Mutable(PengCell::Int(1)), PengBinded::Mutable(PengCell::Int(2))], 1);
    assert!(matches!(execute_stack_instruction(PengInstruction::PushLocal(1), 1, &mut t), Ok(PengStackStep::Done)));
    assert_eq!(tops(&t), vec![PengCell::Int(7), PengCell::Int(1), PengCell::Int(2), PengCell::Int(2)]);
    t.stack.push(PengBinded::Mutable(PengCell::Bool(true)));
    assert!(matches!(execute_stack_instruction(PengInstruction::StoreLocal(0), 1, &mut t), Ok(PengStackStep::Done)));
    assert_eq!(tops(&t), vec![PengCell::Int(7), PengCell::Bool(true), PengCell::Int(2), PengCell::Int(2)]);
    match execute_stack_instruction(PengInstruction::PushLocal(9), 1, &mut t) {
        Err(PengError::Stack(v)) => {
            assert!(matches!(v[0], PengError::LocalNotFound(9)));
            assert!(matches!(v[1], PengError::InvalidInstruction(PengInstruction::PushLocal(9))));
        }
        _ => panic!("expected a missing local"),
    }
}

#[test]
fn immutable_locals_are_not_overwritten() {
    let mut t = thread(vec![PengBinded::Immutable(PengCell::Int(1)), PengBinded::Mutable(PengCell::Int(2))], 0);
    assert!(matches!(execute_stack_instruction(PengInstruction::StoreLocal(0), 0, &mut t), Err(PengError::CannotMutateImmutable)));
    assert_eq!(t.stack.len(), 2);
}

#[test]
fn conditional_jumps_pop_their_condition() {
    let mut t = thread(vec![PengBinded::Mutable(PengCell::Bool(false))], 0);
    assert!(matches!(execute_stack_instruction(PengInstruction::JumpIfFalse(12), 0, &mut t), Ok(PengStackStep::Done)));
    assert!(t.stack.is_empty());
    assert_eq!(t.frames[0].program_counter, 12);
    t.stack.push(PengBinded::Mutable(PengCell::Bool(false)));
    assert!(matches!(execute_stack_instruction(PengInstruction::JumpIfTrue(3), 0, &mut t), Ok(PengStackStep::Done)));
    assert_eq!(t.frames[0].program_counter, 12);
    t.stack.push(PengBinded::Mutable(PengCell::Int(1)));
    assert!(matches!(
        execute_stack_instruction(PengInstruction::JumpIfTrue(3), 0, &mut t),
        Err(PengError::InvalidInstruction(PengInstruction::JumpIfTrue(3)))
    ));
}

#[test]
fn duplicate_pop_and_return() {
    let mut t = thread(vec![PengBinded::Mutable(PengCell::Uint(5))], 0);
    assert!(matches!(execute_stack_instruction(PengInstruction::Duplicate, 0, &mut t), Ok(PengStackStep::Done)));
    assert_eq!(tops(&t), vec![PengCell::Uint(5), PengCell::Uint(5)]);
    assert!(matches!(execute_stack_instruction(PengInstruction::Pop, 0, &mut t), Ok(PengStackStep::Done)));
    match execute_stack_instruction(PengInstruction::Return, 0, &mut t) {
        Ok(PengStackStep::Returned(c)) => assert_eq!(*c.value(), PengCell::Uint(5)),
        _ => panic!("expected a return"),
    }
    assert!(matches!(execute_stack_instruction(PengInstruction::Add, 0, &mut t), Ok(PengStackStep::NotHandled)));
    let _ = execute_stack_instruction(PengInstruction::Pop, 0, &mut t);
    assert!(matches!(execute_stack_instruction(PengInstruction::Pop, 0, &mut t), Err(PengError::Stack(_))));
}

use penguin::function::PengBytecodeFunctionParams;
use penguin::heap::{call_function, PengFunctionKind, PengHeap, PengHeapValue};
use penguin::position::PengPosition;
use penguin::runtime::{execute_instruction, recover_thread_try_error, step_thread, PengThreadStep};

fn function(code: Vec<PengInstruction>) -> PengHeapValue {
    let positions = code.iter().enumerate().map(|(i, _)| PengPosition::new(0, i + 1, None)).collect();
    PengHeapValue::Function(PengFunctionKind::Bytecode(PengBytecodeFunctionParams::Fixed(0)), code, positions, vec![])
}

#[test]
fn heap_instructions() {
    let mut heap = PengHeap::new();
    let five = heap.create_heap_value(PengHeapValue::Cell(PengCell::Int(5)));
    let mut t = PengCallStack { stack: vec![], frames: vec![PengFrame::new(PengHeapPtr(0), 0, 0)] };
    assert!(matches!(execute_instruction(&mut heap, &mut t, PengInstruction::PushHeap(five), 0, None, &PengNamePool::new()), Ok(PengStackStep::Done)));
    assert_eq!(tops(&t), vec![PengCell::Int(5)]);
    assert!(matches!(execute_instruction(&mut heap, &mut t, PengInstruction::CreateVector(1), 0, None, &PengNamePool::new()), Ok(PengStackStep::Done)));
    let vector = match tops(&t)[0] {
        PengCell::Reference(p) => p,
        _ => panic!("expected a reference"),
    };
    match heap.get_heap(vector) {
        Some(PengHeapValue::Vector(cells)) => assert_eq!(*cells[0].value(), PengCell::Int(5)),
        _ => panic!("expected a vector"),
    }
    // store 7 through a reference to the cell at `five`
    t.stack = vec![PengBinded::Mutable(PengCell::Reference(five)), PengBinded::Mutable(PengCell::Int(7))];
    assert!(matches!(execute_instruction(&mut heap, &mut t, PengInstruction::StoreHeap, 0, None, &PengNamePool::new()), Ok(PengStackStep::Done)));
    assert!(t.stack.is_empty());
    assert!(matches!(heap.get_heap(five), Some(PengHeapValue::Cell(PengCell::Int(7)))));
    assert!(matches!(
        execute_instruction(&mut heap, &mut t, PengInstruction::PushHeap(PengHeapPtr(40)), 0, None, &PengNamePool::new()),
        Err(PengError::HeapValueNotFound(PengHeapPtr(40)))
    ));
}

#[test]
fn variadic_rest_goes_to_a_new_vector() {
    let mut heap = PengHeap::new();
    let f = heap.create_heap_value(PengHeapValue::Function(
        PengFunctionKind::Bytecode(PengBytecodeFunctionParams::Variadic(1)),
        vec![],
        vec![],
        vec![],
    ));
    let mut t = PengCallStack {
        stack: vec![
            PengBinded::Mutable(PengCell::Reference(f)),
            PengBinded::Mutable(PengCell::Int(1)),
            PengBinded::Mutable(PengCell::Int(2)),
            PengBinded::Mutable(PengCell::Int(3)),
        ],
        frames: vec![],
    };
    assert!(call_function(&mut heap, &mut t, 3, false).is_ok());
    let rest = match tops(&t)[..] {
        [PengCell::Int(1), PengCell::Reference(r)] => r,
        _ => panic!("unexpected stack"),
    };
    match heap.get_heap(rest) {
        Some(PengHeapValue::Vector(cells)) => {
            assert_eq!(cells.iter().map(|c| *c.value()).collect::<Vec<_>>(), vec![PengCell::Int(2), PengCell::Int(3)])
        }
        _ => panic!("expected the rest vector"),
    }
    assert_eq!(t.frames[0].params_count, 2);
}

#[test]
fn a_thread_runs_to_its_return() {
    let mut heap = PengHeap::new();
    let main = heap.create_heap_value(function(vec![]));
    let five = heap.create_heap_value(PengHeapValue::Cell(PengCell::Int(5)));
    heap.assign_heap(main, function(vec![PengInstruction::PushHeap(five), PengInstruction::Return])).unwrap();
    let mut t = PengCallStack { stack: vec![], frames: vec![PengFrame::new(main, 0, 0)] };
    assert!(matches!(step_thread(&mut heap, &mut t, &PengNamePool::new()), Ok(PengThreadStep::Continued)));
    assert_eq!(t.frames[0].program_counter, 1);
    match step_thread(&mut heap, &mut t, &PengNamePool::new()) {
        Ok(PengThreadStep::Finished(v)) => assert_eq!(*v.value(), PengCell::Int(5)),
        _ => panic!("expected the thread to finish"),
    }
    assert!(t.frames.is_empty());
}

#[test]
fn errors_are_caught_by_try_frames() {
    let mut heap = PengHeap::new();
    let f = heap.create_heap_value(function(vec![PengInstruction::Pop]));
    let mut t = PengCallStack { stack: vec![], frames: vec![PengFrame::new(f, 0, 0), PengFrame::new_try(f, 0, 0)] };
    t.frames[0].program_counter = 9;
    assert!(matches!(step_thread(&mut heap, &mut t, &PengNamePool::new()), Ok(PengThreadStep::Continued)));
    assert_eq!(t.frames.len(), 1);
    assert_eq!(t.frames[0].program_counter, 9);
    assert_eq!(tops(&t), vec![PengCell::Nil, PengCell::Bool(false)]);
    let mut u = PengCallStack { stack: vec![], frames: vec![PengFrame::new(f, 0, 0)] };
    match step_thread(&mut heap, &mut u, &PengNamePool::new()) {
        Err(PengError::PositionedError { position, .. }) => assert_eq!(position.line, 1),
        _ => panic!("expected the error with its place"),
    }
    assert!(!recover_thread_try_error(&mut u));
}

#[test]
fn collection_keeps_exactly_what_roots_reach() {
    let mut heap = PengHeap::new();
    let a = heap.create_heap_value(PengHeapValue::Cell(PengCell::Int(1)));
    let v = heap.create_heap_value(PengHeapValue::Vector(vec![PengBinded::Mutable(PengCell::Reference(a))]));
    let lost = heap.create_heap_value(PengHeapValue::Cell(PengCell::Int(2)));
    let o = heap.create_heap_value(PengHeapValue::Object(vec![(penguin::utils::PengNamePoolPtr(0), PengBinded::Mutable(PengCell::Reference(v)))]));
    let cycle = heap.create_heap_value(PengHeapValue::Cell(PengCell::Nil));
    heap.assign_heap(cycle, PengHeapValue::Cell(PengCell::Reference(cycle))).unwrap();
    heap.mark_and_sweep(&vec![o, PengHeapPtr(99)]);
    assert!(heap.get_heap(o).is_some());
    assert!(heap.get_heap(v).is_some());
    assert!(heap.get_heap(a).is_some());
    assert!(heap.get_heap(lost).is_none());
    assert!(heap.get_heap(cycle).is_none());
    // the next value goes one past the highest address still in use
    let next = heap.create_heap_value(PengHeapValue::Cell(PengCell::Nil));
    assert_eq!(next, PengHeapPtr(4));
}

#[test]
fn arithmetic_and_logic_instructions() {
    let mut heap = PengHeap::new();
    let two = heap.create_heap_value(PengHeapValue::Cell(PengCell::Int(2)));
    let mut t = PengCallStack {
        stack: vec![PengBinded::Mutable(PengCell::Int(40)), PengBinded::Immutable(PengCell::Reference(two))],
        frames: vec![],
    };
    assert!(matches!(execute_instruction(&mut heap, &mut t, PengInstruction::Add, 0, None, &PengNamePool::new()), Ok(PengStackStep::Done)));
    assert_eq!(tops(&t), vec![PengCell::Int(42)]);
    assert!(matches!(execute_instruction(&mut heap, &mut t, PengInstruction::Negate, 0, None, &PengNamePool::new()), Ok(PengStackStep::Done)));
    assert_eq!(tops(&t), vec![PengCell::Int(-42)]);
    t.stack.push(PengBinded::Mutable(PengCell::Int(0)));
    assert!(matches!(
        execute_instruction(&mut heap, &mut t, PengInstruction::Divide, 0, None, &PengNamePool::new()),
        Err(PengError::InvalidInstruction(PengInstruction::Divide))
    ));
    t.stack = vec![PengBinded::Mutable(PengCell::Bool(true)), PengBinded::Mutable(PengCell::Bool(false))];
    assert!(matches!(execute_instruction(&mut heap, &mut t, PengInstruction::Or, 0, None, &PengNamePool::new()), Ok(PengStackStep::Done)));
    assert!(matches!(execute_instruction(&mut heap, &mut t, PengInstruction::Not, 0, None, &PengNamePool::new()), Ok(PengStackStep::Done)));
    assert_eq!(tops(&t), vec![PengCell::Bool(false)]);
    t.stack = vec![PengBinded::Mutable(PengCell::Float32(0)), PengBinded::Mutable(PengCell::Int(1))];
    assert!(matches!(execute_instruction(&mut heap, &mut t, PengInstruction::Add, 0, None, &PengNamePool::new()), Ok(PengStackStep::NotHandled)));
    assert_eq!(t.stack.len(), 2);
}

#[test]
fn comparison_instructions() {
    let mut heap = PengHeap::new();
    let three = heap.create_heap_value(PengHeapValue::Cell(PengCell::Uint(3)));
    let mut t = PengCallStack {
        stack: vec![PengBinded::Mutable(PengCell::Int(3)), PengBinded::Mutable(PengCell::Reference(three))],
        frames: vec![],
    };
    assert!(matches!(execute_instruction(&mut heap, &mut t, PengInstruction::Equals, 0, None, &PengNamePool::new()), Ok(PengStackStep::Done)));
    assert_eq!(tops(&t), vec![PengCell::Bool(true)]);
    t.stack = vec![PengBinded::Mutable(PengCell::Int(-1)), PengBinded::Mutable(PengCell::Byte(0))];
    assert!(matches!(execute_instruction(&mut heap, &mut t, PengInstruction::LessThan, 0, None, &PengNamePool::new()), Ok(PengStackStep::Done)));
    assert_eq!(tops(&t), vec![PengCell::Bool(true)]);
    t.stack = vec![PengBinded::Mutable(PengCell::Bool(true)), PengBinded::Mutable(PengCell::Int(0))];
    assert!(matches!(
        execute_instruction(&mut heap, &mut t, PengInstruction::GreaterThan, 0, None, &PengNamePool::new()),
        Ok(PengStackStep::NotHandled)
    ));
    assert_eq!(t.stack.len(), 2);
}

use penguin::utils::PengNamePoolPtr;

fn mutable(c: PengCell) -> PengBinded<PengCell> {
    PengBinded::Mutable(c)
}

#[test]
fn members_and_attributes_are_read_and_written() {
    let mut heap = PengHeap::new();
    let module = heap.create_heap_value(PengHeapValue::Module(vec![(PengNamePoolPtr(1), mutable(PengCell::Int(4)))]));
    let object = heap.create_heap_value(PengHeapValue::Object(vec![]));
    let mut t = thread(vec![PengBinded::Immutable(PengCell::Reference(module))], 0);
    assert!(matches!(execute_instruction(&mut heap, &mut t, PengInstruction::GetConstMember(PengNamePoolPtr(1)), 0, None, &PengNamePool::new()), Ok(PengStackStep::Done)));
    // What is read from an immutable base is immutable too.
    assert!(matches!(t.stack[0], PengBinded::Immutable(PengCell::Int(4))));
    let mut t = thread(vec![mutable(PengCell::Reference(module))], 0);
    assert!(matches!(
        execute_instruction(&mut heap, &mut t, PengInstruction::GetConstMember(PengNamePoolPtr(2)), 0, None, &PengNamePool::new()),
        Err(PengError::AttributeNotFound(PengNamePoolPtr(2)))
    ));
    let mut t = thread(vec![mutable(PengCell::Reference(object)), mutable(PengCell::Bool(true))], 0);
    assert!(matches!(execute_instruction(&mut heap, &mut t, PengInstruction::SetConstAttribute(PengNamePoolPtr(3)), 0, None, &PengNamePool::new()), Ok(PengStackStep::Done)));
    assert!(t.stack.is_empty());
    match heap.get_heap(object) {
        Some(PengHeapValue::Object(fields)) => {
            assert_eq!(fields.len(), 1);
            assert_eq!(fields[0].0, PengNamePoolPtr(3));
            assert_eq!(*fields[0].1.value(), PengCell::Bool(true));
        }
        _ => panic!("expected the object"),
    }
    let mut t = thread(vec![mutable(PengCell::Reference(object))], 0);
    assert!(matches!(execute_instruction(&mut heap, &mut t, PengInstruction::GetConstAttribute(PengNamePoolPtr(3)), 0, None, &PengNamePool::new()), Ok(PengStackStep::Done)));
    assert_eq!(tops(&t), vec![PengCell::Bool(true)]);
    // A member is written only into a module, an attribute not into one.
    let mut t = thread(vec![mutable(PengCell::Reference(object)), mutable(PengCell::Nil)], 0);
    assert!(matches!(execute_instruction(&mut heap, &mut t, PengInstruction::SetConstMember(PengNamePoolPtr(3)), 0, None, &PengNamePool::new()), Err(PengError::ExpectedModule)));
    let mut t = thread(vec![mutable(PengCell::Reference(module)), mutable(PengCell::Nil)], 0);
    assert!(matches!(execute_instruction(&mut heap, &mut t, PengInstruction::SetConstAttribute(PengNamePoolPtr(3)), 0, None, &PengNamePool::new()), Err(PengError::ExpectedObject)));
    let mut t = thread(vec![PengBinded::Immutable(PengCell::Reference(object)), mutable(PengCell::Nil)], 0);
    assert!(matches!(execute_instruction(&mut heap, &mut t, PengInstruction::SetConstAttribute(PengNamePoolPtr(3)), 0, None, &PengNamePool::new()), Err(PengError::CannotMutateImmutable)));
    let mut t = thread(vec![mutable(PengCell::Int(1))], 0);
    assert!(matches!(execute_instruction(&mut heap, &mut t, PengInstruction::GetConstMember(PengNamePoolPtr(1)), 0, None, &PengNamePool::new()), Err(PengError::ExpectedReference)));
}

#[test]
fn make_immutable_marks_the_top() {
    let mut heap = PengHeap::new();
    let mut t = thread(vec![mutable(PengCell::Int(3))], 0);
    assert!(matches!(execute_instruction(&mut heap, &mut t, PengInstruction::MakeImmutable, 0, None, &PengNamePool::new()), Ok(PengStackStep::Done)));
    assert!(matches!(t.stack[0], PengBinded::Immutable(PengCell::Int(3))));
}

#[test]
fn strings_are_joined_into_a_new_string() {
    let mut heap = PengHeap::new();
    let a = heap.create_heap_value(PengHeapValue::String("ab".to_string()));
    let b = heap.create_heap_value(PengHeapValue::String("c".to_string()));
    let mut t = thread(vec![mutable(PengCell::Reference(a)), mutable(PengCell::Reference(b))], 0);
    assert!(matches!(execute_instruction(&mut heap, &mut t, PengInstruction::Concat, 0, None, &PengNamePool::new()), Ok(PengStackStep::Done)));
    assert_eq!(tops(&t), vec![PengCell::Reference(PengHeapPtr(2))]);
    match heap.get_heap(PengHeapPtr(2)) {
        Some(PengHeapValue::String(s)) => assert_eq!(s.as_str(), "abc"),
        _ => panic!("expected the joined string"),
    }
    let mut t = thread(vec![mutable(PengCell::Int(1)), mutable(PengCell::Reference(b))], 0);
    assert!(matches!(execute_instruction(&mut heap, &mut t, PengInstruction::Concat, 0, None, &PengNamePool::new()), Ok(PengStackStep::NotHandled)));
}

#[test]
fn items_are_read_by_number() {
    let mut heap = PengHeap::new();
    let v = heap.create_heap_value(PengHeapValue::Vector(vec![mutable(PengCell::Int(10)), mutable(PengCell::Int(20))]));
    let s = heap.create_heap_value(PengHeapValue::String("héllo".to_string()));
    let mut t = thread(vec![mutable(PengCell::Reference(v)), mutable(PengCell::Uint(1))], 0);
    assert!(matches!(execute_instruction(&mut heap, &mut t, PengInstruction::GetIndex, 0, None, &PengNamePool::new()), Ok(PengStackStep::Done)));
    assert_eq!(tops(&t), vec![PengCell::Int(20)]);
    let mut t = thread(vec![mutable(PengCell::Reference(v)), mutable(PengCell::Int(2))], 0);
    assert!(matches!(
        execute_instruction(&mut heap, &mut t, PengInstruction::GetIndex, 0, None, &PengNamePool::new()),
        Err(PengError::IndexOutOfBounds { index: 2, len: 2 })
    ));
    let mut t = thread(vec![mutable(PengCell::Reference(v)), mutable(PengCell::Int(-1))], 0);
    assert!(matches!(
        execute_instruction(&mut heap, &mut t, PengInstruction::GetIndex, 0, None, &PengNamePool::new()),
        Err(PengError::InvalidIndexTypeValue(PengHeapValue::Cell(PengCell::Int(-1))))
    ));
    let mut t = thread(vec![mutable(PengCell::Reference(s)), mutable(PengCell::Int(1))], 0);
    assert!(matches!(execute_instruction(&mut heap, &mut t, PengInstruction::GetIndex, 0, None, &PengNamePool::new()), Ok(PengStackStep::Done)));
    match t.stack[0].value() {
        PengCell::Reference(p) => match heap.get_heap(*p) {
            Some(PengHeapValue::String(x)) => assert_eq!(x.as_str(), "é"),
            _ => panic!("expected a one-character string"),
        },
        _ => panic!("expected a reference"),
    }
    let mut t = thread(vec![mutable(PengCell::Bool(true)), mutable(PengCell::Int(0))], 0);
    match execute_instruction(&mut heap, &mut t, PengInstruction::GetIndex, 0, None, &PengNamePool::new()) {
        Err(PengError::CannotIndexValue(m)) => assert_eq!(m.as_str(), "non-indexable value"),
        _ => panic!("expected a value that cannot be indexed"),
    }
}

#[test]
fn reserving_a_local_inserts_nil_once() {
    let mut t = thread(vec![mutable(PengCell::Int(1)), mutable(PengCell::Int(2))], 1);
    assert!(matches!(execute_stack_instruction(PengInstruction::ReserveLocal(0), 1, &mut t), Ok(PengStackStep::Done)));
    assert_eq!(tops(&t), vec![PengCell::Int(1), PengCell::Nil, PengCell::Int(2)]);
    assert_eq!(t.frames[0].reserved_locals, vec![0]);
    assert!(matches!(execute_stack_instruction(PengInstruction::ReserveLocal(0), 1, &mut t), Ok(PengStackStep::Done)));
    assert_eq!(t.stack.len(), 3);
    assert!(matches!(execute_stack_instruction(PengInstruction::ReserveLocal(9), 1, &mut t), Err(PengError::Stack(_))));
}

#[test]
fn new_values_go_one_past_the_highest_address_in_use() {
    let mut heap = PengHeap::new();
    let a = heap.create_heap_value(PengHeapValue::Cell(PengCell::Int(1)));
    let _b = heap.create_heap_value(PengHeapValue::Cell(PengCell::Int(2)));
    let _c = heap.create_heap_value(PengHeapValue::Cell(PengCell::Int(3)));
    heap.mark_and_sweep(&vec![a]);
    assert_eq!(heap.next_address(), 1);
    assert_eq!(heap.create_heap_value(PengHeapValue::Cell(PengCell::Nil)), PengHeapPtr(1));
    assert!(heap.is_runnable());
}

#[test]
fn items_are_written_by_number() {
    let mut heap = PengHeap::new();
    let v = heap.create_heap_value(PengHeapValue::Vector(vec![mutable(PengCell::Int(10)), mutable(PengCell::Int(20))]));
    let mut t = thread(vec![mutable(PengCell::Reference(v)), mutable(PengCell::Int(0)), mutable(PengCell::Bool(true))], 0);
    assert!(matches!(execute_instruction(&mut heap, &mut t, PengInstruction::SetIndex, 0, None, &PengNamePool::new()), Ok(PengStackStep::Done)));
    assert!(t.stack.is_empty());
    match heap.get_heap(v) {
        Some(PengHeapValue::Vector(items)) => {
            assert_eq!(*items[0].value(), PengCell::Bool(true));
            assert_eq!(*items[1].value(), PengCell::Int(20));
        }
        _ => panic!("expected the vector"),
    }
    let mut t = thread(vec![mutable(PengCell::Reference(v)), mutable(PengCell::Uint(5)), mutable(PengCell::Nil)], 0);
    assert!(matches!(
        execute_instruction(&mut heap, &mut t, PengInstruction::SetIndex, 0, None, &PengNamePool::new()),
        Err(PengError::IndexOutOfBounds { index: 5, len: 2 })
    ));
    let mut t = thread(vec![PengBinded::Immutable(PengCell::Reference(v)), mutable(PengCell::Uint(0)), mutable(PengCell::Nil)], 0);
    assert!(matches!(execute_instruction(&mut heap, &mut t, PengInstruction::SetIndex, 0, None, &PengNamePool::new()), Err(PengError::CannotMutateImmutable)));
    let c = heap.create_heap_value(PengHeapValue::Cell(PengCell::Int(1)));
    let mut t = thread(vec![mutable(PengCell::Reference(c)), mutable(PengCell::Uint(0)), mutable(PengCell::Nil)], 0);
    match execute_instruction(&mut heap, &mut t, PengInstruction::SetIndex, 0, None, &PengNamePool::new()) {
        Err(PengError::CannotSetIndex(m)) => assert_eq!(m.as_str(), "non-indexable heap value"),
        _ => panic!("expected a value that cannot be indexed"),
    }
}

#[test]
fn constants_come_from_the_running_function() {
    let mut heap = PengHeap::new();
    let code = vec![PengInstruction::PushConst(1), PengInstruction::Return];
    let positions = vec![PengPosition::new(0, 1, None), PengPosition::new(0, 2, None)];
    let f = heap.create_heap_value(PengHeapValue::Function(
        PengFunctionKind::Bytecode(PengBytecodeFunctionParams::Fixed(0)),
        code,
        positions,
        vec![PengCell::Nil, PengCell::Int(7)],
    ));
    let mut t = PengCallStack { stack: vec![], frames: vec![PengFrame::new(f, 0, 0)] };
    assert!(matches!(step_thread(&mut heap, &mut t, &PengNamePool::new()), Ok(PengThreadStep::Continued)));
    match step_thread(&mut heap, &mut t, &PengNamePool::new()) {
        Ok(PengThreadStep::Finished(v)) => assert_eq!(*v.value(), PengCell::Int(7)),
        _ => panic!("expected the constant back"),
    }
    let g = heap.create_heap_value(function(vec![PengInstruction::PushConst(0)]));
    let mut u = PengCallStack { stack: vec![], frames: vec![PengFrame::new(g, 0, 0)] };
    assert!(matches!(step_thread(&mut heap, &mut u, &PengNamePool::new()), Err(PengError::IndexOutOfBounds { index: 0, len: 0 })));
    assert_eq!(u.frames[0].program_counter, 0);
    let mut w = PengCallStack { stack: vec![], frames: vec![PengFrame::new(g, 0, 0)] };
    assert!(matches!(
        execute_instruction(&mut heap, &mut w, PengInstruction::PushConst(0), 0, None, &PengNamePool::new()),
        Err(PengError::InstructionExpectedConstant)
    ));
}

#[test]
fn pooled_strings_are_pushed_as_new_strings() {
    let mut heap = PengHeap::new();
    let mut names = PengNamePool::new();
    let hi = names.ensure_pooled_name_ptr("hi".to_string());
    let mut t = thread(vec![], 0);
    assert!(matches!(execute_instruction(&mut heap, &mut t, PengInstruction::PushString(hi), 0, None, &names), Ok(PengStackStep::Done)));
    match t.stack[0].value() {
        PengCell::Reference(p) => match heap.get_heap(*p) {
            Some(PengHeapValue::String(s)) => assert_eq!(s.as_str(), "hi"),
            _ => panic!("expected the string"),
        },
        _ => panic!("expected a reference"),
    }
    assert!(matches!(
        execute_instruction(&mut heap, &mut t, PengInstruction::PushString(PengNamePoolPtr(4)), 0, None, &names),
        Err(PengError::NameNotFound(PengNamePoolPtr(4)))
    ));
}
