use penguin::binding::PengBinded;
use penguin::call::{call_target, execute_function_call, finish_variadic_call, PengCallOutcome, PengCallStack, PengCallee, PengCell};
use penguin::error::PengError;
use penguin::function::PengBytecodeFunctionParams;
use penguin::utils::PengHeapPtr;

fn m(c: PengCell) -> PengBinded<PengCell> {
    PengBinded::Mutable(c)
}

fn cells(s: &PengCallStack) -> Vec<PengCell> {
    s.stack.iter().map(|c| *c.value()).collect()
}

fn with_call(args: Vec<PengCell>) -> PengCallStack {
    let mut stack = vec![m(PengCell::Int(99)), m(PengCell::Reference(PengHeapPtr(4)))];
    for a in args {
        stack.push(m(a));
    }
    PengCallStack { stack, frames: vec![] }
}

#[test]
fn missing_arguments_become_nil() {
    let mut t = with_call(vec![PengCell::Int(1)]);
    let out = execute_function_call(&mut t, PengCallee::Bytecode(PengBytecodeFunctionParams::Fixed(3)), 1, false);
    assert!(matches!(out, Ok(PengCallOutcome::Entered)));
    assert_eq!(cells(&t), vec![PengCell::Int(99), PengCell::Int(1), PengCell::Nil, PengCell::Nil]);
    assert_eq!(t.frames.len(), 1);
    assert_eq!(t.frames[0].base, 1);
    assert_eq!(t.frames[0].params_count, 3);
    assert_eq!(t.frames[0].procedure, PengHeapPtr(4));
    assert!(!t.frames[0].is_try);
}

#[test]
fn extra_arguments_are_dropped_for_fixed_functions() {
    let mut t = with_call(vec![PengCell::Int(1), PengCell::Bool(true)]);
    let out = execute_function_call(&mut t, PengCallee::Bytecode(PengBytecodeFunctionParams::Fixed(1)), 2, true);
    assert!(matches!(out, Ok(PengCallOutcome::Entered)));
    assert_eq!(cells(&t), vec![PengCell::Int(99), PengCell::Int(1)]);
    assert!(t.frames[0].is_try);
}

#[test]
fn variadic_functions_get_the_rest() {
    let mut t = with_call(vec![PengCell::Int(1), PengCell::Int(2), PengCell::Int(3)]);
    let out = execute_function_call(&mut t, PengCallee::Bytecode(PengBytecodeFunctionParams::Variadic(1)), 3, false);
    match out {
        Ok(PengCallOutcome::NeedsRest { function, base, fixed_count, rest }) => {
            assert_eq!(function, PengHeapPtr(4));
            assert_eq!(base, 1);
            assert_eq!(fixed_count, 1);
            assert_eq!(rest.iter().map(|c| *c.value()).collect::<Vec<_>>(), vec![PengCell::Int(2), PengCell::Int(3)]);
            assert_eq!(cells(&t), vec![PengCell::Int(99), PengCell::Int(1)]);
            assert!(t.frames.is_empty());
            finish_variadic_call(&mut t, function, base, fixed_count, PengHeapPtr(8), false);
            assert_eq!(cells(&t), vec![PengCell::Int(99), PengCell::Int(1), PengCell::Reference(PengHeapPtr(8))]);
            assert_eq!(t.frames[0].params_count, 2);
        }
        _ => panic!("expected the rest to store"),
    }
}

#[test]
fn native_functions_keep_every_argument() {
    let mut t = with_call(vec![PengCell::Int(1), PengCell::Int(2)]);
    let out = execute_function_call(&mut t, PengCallee::Native, 2, false);
    assert!(matches!(out, Ok(PengCallOutcome::Entered)));
    assert_eq!(cells(&t), vec![PengCell::Int(99), PengCell::Int(1), PengCell::Int(2)]);
    assert_eq!(t.frames[0].params_count, 2);
}

#[test]
fn call_errors() {
    let mut t = with_call(vec![]);
    assert!(matches!(execute_function_call(&mut t, PengCallee::Native, 5, false), Err(PengError::StackUnderflow)));
    assert!(matches!(execute_function_call(&mut t, PengCallee::Native, 1, false), Err(PengError::ExpectedReference)));
    assert!(matches!(
        execute_function_call(&mut t, PengCallee::Missing, 0, false),
        Err(PengError::HeapValueNotFound(PengHeapPtr(4)))
    ));
    assert!(matches!(execute_function_call(&mut t, PengCallee::NotAFunction, 0, false), Err(PengError::ExpectedFunction)));
    assert_eq!(t.stack.len(), 2);
    assert!(t.frames.is_empty());
    assert!(matches!(call_target(&t, 0), Ok(PengHeapPtr(4))));
}
