use penguin::binding::PengBinded;
use penguin::generator::generate_program::declaration_name;
use penguin::generator::generator_utils::PengGeneratorContext;
use penguin::instruction::PengInstruction;
use penguin::parser::ast::{PengDeclaration, PengVariableDeclaration};
use penguin::position::PengPosition;
use penguin::positioned::PengPositioned;
use penguin::utils::{PengHeapPtr, PengNamePoolPtr};

fn at(line: usize) -> PengPosition {
    PengPosition::new(0, line, Some(1))
}

#[test]
fn locals_are_numbered_in_order_and_found_innermost_first() {
    let mut context = PengGeneratorContext::new();
    assert_eq!(context.create_local("a".to_string()), 0);
    assert_eq!(context.create_temporary_local(), 1);
    context.push_scope();
    assert_eq!(context.create_local("a".to_string()), 2);
    assert_eq!(context.create_local("b".to_string()), 3);
    assert_eq!(context.get_local("a"), Some(2));
    assert_eq!(context.get_local("b"), Some(3));
    assert_eq!(context.get_local("c"), None);
    context.pop_scope();
    assert_eq!(context.get_local("a"), Some(0));
    assert_eq!(context.get_local("b"), None);
    // The outermost scope is never left.
    context.pop_scope();
    assert_eq!(context.get_local("a"), Some(0));
    context.insert_local("a".to_string(), 7);
    assert_eq!(context.get_local("a"), Some(7));
}

#[test]
fn jumps_are_patched_in_place() {
    let mut context = PengGeneratorContext::new();
    context.push_positioned_instruction(PengInstruction::Pop, at(1));
    let jump = context.emit_jump(at(2));
    let branch = context.emit_jump_if_false(at(3));
    assert_eq!(jump, 1);
    assert_eq!(branch, 2);
    context.patch_jump(jump, 9);
    context.patch_jump(branch, 4);
    // Not a jump, and past the end: both left alone.
    context.patch_jump(0, 5);
    context.patch_jump(10, 5);
    assert_eq!(context.bytecode, vec![PengInstruction::Pop, PengInstruction::Jump(9), PengInstruction::JumpIfFalse(4)]);
    assert_eq!(context.positions, vec![at(1), at(2), at(3)]);
}

#[test]
fn break_and_continue_need_a_loop() {
    let mut context = PengGeneratorContext::new();
    assert!(!context.emit_break(at(1)));
    assert!(!context.emit_continue(at(1)));
    assert!(context.bytecode.is_empty());
    assert!(context.pop_loop().is_none());
}

#[test]
fn loop_jumps_go_to_their_targets() {
    let mut context = PengGeneratorContext::new();
    context.push_loop(None);
    context.push_positioned_instruction(PengInstruction::Pop, at(1));
    assert!(context.emit_break(at(2)));
    assert!(context.emit_continue(at(3)));
    assert!(context.emit_break(at(4)));
    let loop_context = context.pop_loop().unwrap();
    context.patch_loop(loop_context, 20, 0);
    assert_eq!(
        context.bytecode,
        vec![PengInstruction::Pop, PengInstruction::Jump(20), PengInstruction::Jump(0), PengInstruction::Jump(20)]
    );
}

#[test]
fn a_known_continue_target_wins_over_the_fallback() {
    let mut context = PengGeneratorContext::new();
    context.push_loop(Some(3));
    assert!(context.emit_continue(at(1)));
    let loop_context = context.pop_loop().unwrap();
    context.patch_loop(loop_context, 8, 0);
    assert_eq!(context.bytecode, vec![PengInstruction::Jump(3)]);
}

#[test]
fn globals_are_looked_up_own_first() {
    let mut context = PengGeneratorContext::new();
    let name = PengNamePoolPtr(1);
    context.use_global(name, PengBinded::Immutable(PengHeapPtr(5)));
    assert!(matches!(context.get_global(name), Some(PengBinded::Immutable(PengHeapPtr(5)))));
    assert!(context.get_own_global(name).is_none());
    context.insert_global(name, PengBinded::Mutable(PengHeapPtr(6)));
    context.insert_global(name, PengBinded::Mutable(PengHeapPtr(7)));
    assert!(matches!(context.get_global(name), Some(PengBinded::Mutable(PengHeapPtr(7)))));
    assert!(matches!(context.get_own_global(name), Some(PengBinded::Mutable(PengHeapPtr(7)))));
    assert!(context.get_global(PengNamePoolPtr(2)).is_none());
    assert_eq!(context.globals().len(), 1);
    let child = context.new_child_context();
    assert!(matches!(child.get_global(name), Some(PengBinded::Mutable(PengHeapPtr(7)))));
    assert_eq!(child.get_local("x"), None);
    assert_eq!(context.into_globals().len(), 1);
}

#[test]
fn declaration_name_ignores_the_binding() {
    let declaration = PengDeclaration::Var(PengPositioned {
        position: at(1),
        value: PengVariableDeclaration {
            name: PengPositioned { position: at(1), value: "answer".to_string() },
            type_hint: None,
            value: None,
        },
    });
    assert_eq!(declaration_name(&PengBinded::Mutable(declaration)), "answer");
}

#[test]
fn pointer_arithmetic_acts_on_the_address() {
    assert_eq!(PengHeapPtr(3) + 4, PengHeapPtr(7));
    assert_eq!(PengHeapPtr(7) - 4, PengHeapPtr(3));
    assert_eq!(PengHeapPtr(3) * 4, PengHeapPtr(12));
    assert_eq!(PengHeapPtr(13) / 4, PengHeapPtr(3));
    assert_eq!(PengHeapPtr(13) % 4, PengHeapPtr(1));
    assert_eq!(PengNamePoolPtr(3) + 4, PengNamePoolPtr(7));
    assert_eq!(PengNamePoolPtr(9) % 4, PengNamePoolPtr(1));
    assert_eq!(PengHeapPtr::from(5usize), PengHeapPtr(5));
    assert_eq!(usize::from(PengNamePoolPtr(6)), 6);
}

use penguin::call::PengCell;
use penguin::generator::generate_expression::{generate_expression, generate_try_expression};
use penguin::names::PengNamePool;
use penguin::parser::ast::{
    PengBinaryOperator, PengExpression, PengFuncCallExpression, PengFunctionCallArg, PengLiteral,
    PengMethodCallExpression, PengPositionedExpression, PengUnaryOperator,
};

fn expr(value: PengExpression, line: usize) -> PengPositionedExpression {
    PengPositioned::new(value, at(line))
}

fn int_literal(v: isize, line: usize) -> PengPositionedExpression {
    expr(PengExpression::Literal(PengPositioned::new(PengLiteral::Int(v), at(line))), line)
}

fn ident(name: &str, line: usize) -> PengPositionedExpression {
    expr(PengExpression::Identifier(PengPositioned::new(name.to_string(), at(line))), line)
}

fn arg(e: PengPositionedExpression, variadic: bool) -> penguin::parser::ast::PengPositionedFunctionCallArg {
    let position = e.position;
    PengPositioned::new(PengFunctionCallArg { expression: e, variadic }, position)
}

#[test]
fn literals_reuse_equal_constants_and_pool_strings() {
    let mut names = PengNamePool::new();
    let mut context = PengGeneratorContext::new();
    assert!(generate_expression(&mut names, &mut context, &int_literal(7, 1)).is_ok());
    assert!(generate_expression(&mut names, &mut context, &int_literal(9, 2)).is_ok());
    assert!(generate_expression(&mut names, &mut context, &int_literal(7, 3)).is_ok());
    let s = expr(PengExpression::Literal(PengPositioned::new(PengLiteral::String("hi".to_string()), at(4))), 4);
    assert!(generate_expression(&mut names, &mut context, &s).is_ok());
    assert_eq!(
        context.bytecode,
        vec![
            PengInstruction::PushConst(0),
            PengInstruction::PushConst(1),
            PengInstruction::PushConst(0),
            PengInstruction::PushString(PengNamePoolPtr(0)),
        ]
    );
    assert_eq!(context.consts().len(), 2);
    assert!(matches!(context.consts()[0], PengCell::Int(7)));
    assert!(matches!(context.consts()[1], PengCell::Int(9)));
    assert_eq!(names.get_pooled_name(PengNamePoolPtr(0)).unwrap().as_str(), "hi");
    assert_eq!(context.positions, vec![at(1), at(2), at(3), at(4)]);
}

#[test]
fn names_read_locals_first_then_globals() {
    let mut names = PengNamePool::new();
    let mut context = PengGeneratorContext::new();
    context.create_local("x".to_string());
    let g = names.ensure_pooled_name_ptr("g".to_string());
    context.insert_global(g, PengBinded::Immutable(PengHeapPtr(5)));
    let m = names.ensure_pooled_name_ptr("m".to_string());
    context.insert_global(m, PengBinded::Mutable(PengHeapPtr(6)));
    assert!(generate_expression(&mut names, &mut context, &ident("x", 1)).is_ok());
    assert!(generate_expression(&mut names, &mut context, &ident("g", 2)).is_ok());
    assert!(generate_expression(&mut names, &mut context, &ident("m", 3)).is_ok());
    assert_eq!(
        context.bytecode,
        vec![
            PengInstruction::PushLocal(0),
            PengInstruction::PushHeap(PengHeapPtr(5)),
            PengInstruction::MakeImmutable,
            PengInstruction::PushHeap(PengHeapPtr(6)),
        ]
    );
    assert!(generate_expression(&mut names, &mut context, &ident("nope", 4)).is_err());
}

#[test]
fn operators_and_short_circuits() {
    let mut names = PengNamePool::new();
    let mut context = PengGeneratorContext::new();
    let negated = expr(PengExpression::Unary { operator: PengUnaryOperator::Negate, value: Box::new(int_literal(1, 1)) }, 1);
    let sum = expr(
        PengExpression::Binary { left: Box::new(negated), operator: PengBinaryOperator::Add, right: Box::new(int_literal(2, 1)) },
        1,
    );
    assert!(generate_expression(&mut names, &mut context, &sum).is_ok());
    assert_eq!(
        context.bytecode,
        vec![PengInstruction::PushConst(0), PengInstruction::Negate, PengInstruction::PushConst(1), PengInstruction::Add]
    );
    let mut context = PengGeneratorContext::new();
    let and = expr(
        PengExpression::Binary {
            left: Box::new(int_literal(1, 2)),
            operator: PengBinaryOperator::ShortCircuitAnd,
            right: Box::new(int_literal(2, 2)),
        },
        2,
    );
    assert!(generate_expression(&mut names, &mut context, &and).is_ok());
    assert_eq!(
        context.bytecode,
        vec![
            PengInstruction::PushConst(0),
            PengInstruction::Duplicate,
            PengInstruction::JumpIfFalse(5),
            PengInstruction::Pop,
            PengInstruction::PushConst(1),
        ]
    );
}

#[test]
fn calls_unpack_only_their_last_argument() {
    let mut names = PengNamePool::new();
    let mut context = PengGeneratorContext::new();
    context.create_local("f".to_string());
    let call = expr(
        PengExpression::FuncCall(PengFuncCallExpression {
            function: Box::new(ident("f", 1)),
            args: vec![arg(int_literal(1, 1), false), arg(int_literal(2, 1), true)],
        }),
        1,
    );
    assert!(generate_expression(&mut names, &mut context, &call).is_ok());
    assert_eq!(
        context.bytecode,
        vec![
            PengInstruction::PushLocal(0),
            PengInstruction::PushConst(0),
            PengInstruction::PushConst(1),
            PengInstruction::FunctionCallSpread(1),
        ]
    );
    let bad = expr(
        PengExpression::FuncCall(PengFuncCallExpression {
            function: Box::new(ident("f", 2)),
            args: vec![arg(int_literal(1, 2), true), arg(int_literal(2, 2), false)],
        }),
        2,
    );
    assert!(generate_expression(&mut names, &mut context, &bad).is_err());
}

#[test]
fn method_calls_keep_the_object_in_a_temporary() {
    let mut names = PengNamePool::new();
    let mut context = PengGeneratorContext::new();
    context.create_local("o".to_string());
    let call = expr(
        PengExpression::MethodCall(PengMethodCallExpression {
            object: Box::new(ident("o", 1)),
            method: PengPositioned::new("run".to_string(), at(1)),
            args: vec![arg(int_literal(3, 1), false)],
        }),
        1,
    );
    assert!(generate_expression(&mut names, &mut context, &call).is_ok());
    assert_eq!(
        context.bytecode,
        vec![
            PengInstruction::ReserveLocal(1),
            PengInstruction::PushLocal(0),
            PengInstruction::StoreLocal(1),
            PengInstruction::PushLocal(1),
            PengInstruction::GetConstAttribute(PengNamePoolPtr(0)),
            PengInstruction::PushLocal(1),
            PengInstruction::PushConst(0),
            PengInstruction::FunctionCall(2),
        ]
    );
}

#[test]
fn try_jumps_past_its_fallback() {
    let mut names = PengNamePool::new();
    let mut context = PengGeneratorContext::new();
    context.create_local("f".to_string());
    let call = expr(
        PengExpression::FuncCall(PengFuncCallExpression { function: Box::new(ident("f", 1)), args: vec![] }),
        1,
    );
    let attempt = expr(PengExpression::Try { value: Box::new(call), elsing: None }, 1);
    assert!(generate_try_expression(&mut names, &mut context, &attempt).is_ok());
    assert_eq!(
        context.bytecode,
        vec![
            PengInstruction::PushLocal(0),
            PengInstruction::TryFunctionCall(0),
            PengInstruction::JumpIfTrue(5),
            PengInstruction::Pop,
            PengInstruction::PushConst(0),
        ]
    );
    assert!(matches!(context.consts()[0], PengCell::Nil));
    let not_a_call = expr(PengExpression::Try { value: Box::new(int_literal(1, 2)), elsing: Some(Box::new(int_literal(2, 2))) }, 2);
    assert!(generate_expression(&mut names, &mut context, &not_a_call).is_err());
}

use penguin::parser::ast::{PengObjectConstructionExpression, PengObjectFieldLiteral};

#[test]
fn vectors_and_objects_are_built_in_order() {
    let mut names = PengNamePool::new();
    let mut context = PengGeneratorContext::new();
    let vector = expr(
        PengExpression::Literal(PengPositioned::new(PengLiteral::Vector(vec![int_literal(1, 1), int_literal(2, 1)]), at(1))),
        1,
    );
    assert!(generate_expression(&mut names, &mut context, &vector).is_ok());
    assert_eq!(
        context.bytecode,
        vec![PengInstruction::PushConst(0), PengInstruction::PushConst(1), PengInstruction::CreateVector(2)]
    );
    let mut context = PengGeneratorContext::new();
    context.create_local("T".to_string());
    let field = || PengObjectFieldLiteral { name: PengPositioned::new("x".to_string(), at(3)), value: int_literal(5, 3) };
    let object = expr(
        PengExpression::Literal(PengPositioned::new(PengLiteral::Object(vec![field()]), at(2))),
        2,
    );
    assert!(generate_expression(&mut names, &mut context, &object).is_ok());
    let built = expr(
        PengExpression::ObjectConstruction(PengObjectConstructionExpression {
            object_type: Box::new(ident("T", 4)),
            fields: vec![field()],
        }),
        4,
    );
    assert!(generate_expression(&mut names, &mut context, &built).is_ok());
    assert_eq!(
        context.bytecode,
        vec![
            PengInstruction::CreateEmptyObject,
            PengInstruction::Duplicate,
            PengInstruction::PushConst(0),
            PengInstruction::SetConstAttribute(PengNamePoolPtr(0)),
            PengInstruction::PushLocal(0),
            PengInstruction::CreateTypedObject,
            PengInstruction::Duplicate,
            PengInstruction::PushConst(0),
            PengInstruction::SetConstAttribute(PengNamePoolPtr(0)),
        ]
    );
    assert_eq!(context.positions[1], at(3));
}
