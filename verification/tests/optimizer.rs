use penguin::binding::PengBinded;
use penguin::error::PengError;
use penguin::generator::generate_expression::static_type_from_expression;
use penguin::generator::generator_utils::declaration_position;
use penguin::optimizer::boolean_simplification::simplify_expression;
use penguin::optimizer::config::PengOptimizerConfig;
use penguin::optimizer::constant_folding::fold_expression;
use penguin::optimizer::constant_propagation::{
    can_propagate_expression, can_propagate_literal, PengConstantPropagationScope,
};
use penguin::optimizer::dead_code::{block_stops_flow, remove_unreachable_statements, statement_stops_flow};
use penguin::optimizer::empty_blocks::{
    empty_statements_to_none, remove_empty_block_statements, statement_is_empty_block, statements_are_empty,
};
use penguin::optimizer::optimizer::optimize_ast;
use penguin::parser::ast::{
    PengAST, PengAssignStatement, PengBinaryOperator, PengDeclaration, PengExpression, PengFunctionDeclaration, PengIfStatement,
    PengLiteral, PengPositionedExpression, PengPositionedStatement, PengStatement, PengTypeExpression,
    PengUnaryOperator, PengVariableDeclaration,
};
use penguin::position::PengPosition;
use penguin::positioned::PengPositioned;
use penguin::typing::PengType;

fn at(line: usize) -> PengPosition {
    PengPosition::new(0, line, Some(1))
}

fn lit(v: PengLiteral, line: usize) -> PengPositionedExpression {
    PengPositioned { position: at(line), value: PengExpression::Literal(PengPositioned { position: at(line), value: v }) }
}

fn ident(name: &str, line: usize) -> PengPositionedExpression {
    PengPositioned {
        position: at(line),
        value: PengExpression::Identifier(PengPositioned { position: at(line), value: name.to_string() }),
    }
}

fn binary(l: PengPositionedExpression, op: PengBinaryOperator, r: PengPositionedExpression, line: usize) -> PengPositionedExpression {
    PengPositioned {
        position: at(line),
        value: PengExpression::Binary { left: Box::new(l), operator: op, right: Box::new(r) },
    }
}

fn unary(op: PengUnaryOperator, v: PengPositionedExpression, line: usize) -> PengPositionedExpression {
    PengPositioned { position: at(line), value: PengExpression::Unary { operator: op, value: Box::new(v) } }
}

fn stmt(value: PengStatement, line: usize) -> PengPositionedStatement {
    PengPositioned { position: at(line), value }
}

fn literal_value(e: &PengPositionedExpression) -> Option<&PengLiteral> {
    match &e.value {
        PengExpression::Literal(l) => Some(&l.value),
        _ => None,
    }
}

fn var_decl(name: &str, value: Option<PengPositionedExpression>, line: usize) -> PengDeclaration {
    PengDeclaration::Var(PengPositioned {
        position: at(line),
        value: PengVariableDeclaration {
            name: PengPositioned { position: at(line), value: name.to_string() },
            type_hint: None,
            value,
        },
    })
}

#[test]
fn folds_integer_addition() {
    let e = binary(lit(PengLiteral::Int(2), 3), PengBinaryOperator::Add, lit(PengLiteral::Int(3), 3), 7);
    let folded = fold_expression(e).unwrap();
    assert!(matches!(literal_value(&folded), Some(PengLiteral::Int(5))));
    assert_eq!(folded.position.line, 7);
}

#[test]
fn leaves_overflowing_addition() {
    let e = binary(lit(PengLiteral::Int(isize::MAX), 1), PengBinaryOperator::Add, lit(PengLiteral::Int(1), 1), 1);
    let folded = fold_expression(e).unwrap();
    assert!(matches!(folded.value, PengExpression::Binary { .. }));
}

#[test]
fn leaves_division_by_zero() {
    let e = binary(lit(PengLiteral::Uint(8), 1), PengBinaryOperator::Divide, lit(PengLiteral::Uint(0), 1), 1);
    assert!(matches!(fold_expression(e).unwrap().value, PengExpression::Binary { .. }));
}

#[test]
fn division_and_remainder_round_toward_zero() {
    let d = binary(lit(PengLiteral::Int(-7), 1), PengBinaryOperator::Divide, lit(PengLiteral::Int(2), 1), 1);
    assert!(matches!(literal_value(&fold_expression(d).unwrap()), Some(PengLiteral::Int(-3))));
    let r = binary(lit(PengLiteral::Int(-7), 1), PengBinaryOperator::Remainder, lit(PengLiteral::Int(2), 1), 1);
    assert!(matches!(literal_value(&fold_expression(r).unwrap()), Some(PengLiteral::Int(-1))));
    let m = binary(lit(PengLiteral::Int(isize::MIN), 1), PengBinaryOperator::Remainder, lit(PengLiteral::Int(-1), 1), 1);
    assert!(matches!(fold_expression(m).unwrap().value, PengExpression::Binary { .. }));
}

#[test]
fn folds_powers() {
    let p = binary(lit(PengLiteral::Int(-2), 1), PengBinaryOperator::Power, lit(PengLiteral::Int(3), 1), 1);
    assert!(matches!(literal_value(&fold_expression(p).unwrap()), Some(PengLiteral::Int(-8))));
    let b = binary(lit(PengLiteral::Byte(2), 1), PengBinaryOperator::Power, lit(PengLiteral::Byte(8), 1), 1);
    assert!(matches!(fold_expression(b).unwrap().value, PengExpression::Binary { .. }));
    let b7 = binary(lit(PengLiteral::Byte(2), 1), PengBinaryOperator::Power, lit(PengLiteral::Byte(7), 1), 1);
    assert!(matches!(literal_value(&fold_expression(b7).unwrap()), Some(PengLiteral::Byte(128))));
    let one = binary(lit(PengLiteral::Uint(1), 1), PengBinaryOperator::Power, lit(PengLiteral::Uint(4_000_000_000), 1), 1);
    assert!(matches!(literal_value(&fold_expression(one).unwrap()), Some(PengLiteral::Uint(1))));
    let neg = binary(lit(PengLiteral::Int(2), 1), PengBinaryOperator::Power, lit(PengLiteral::Int(-1), 1), 1);
    assert!(matches!(fold_expression(neg).unwrap().value, PengExpression::Binary { .. }));
}

#[test]
fn folds_string_concatenation_and_comparison() {
    let c = binary(
        lit(PengLiteral::String("ab".to_string()), 1),
        PengBinaryOperator::Concat,
        lit(PengLiteral::String("cd".to_string()), 1),
        1,
    );
    match literal_value(&fold_expression(c).unwrap()) {
        Some(PengLiteral::String(s)) => assert_eq!(s, "abcd"),
        _ => panic!("expected a string"),
    }
    let eq = binary(
        lit(PengLiteral::String("x".to_string()), 1),
        PengBinaryOperator::NotEquals,
        lit(PengLiteral::String("x".to_string()), 1),
        1,
    );
    assert!(matches!(literal_value(&fold_expression(eq).unwrap()), Some(PengLiteral::Bool(false))));
    let lt = binary(lit(PengLiteral::Uint(3), 1), PengBinaryOperator::LessThan, lit(PengLiteral::Uint(4), 1), 1);
    assert!(matches!(literal_value(&fold_expression(lt).unwrap()), Some(PengLiteral::Bool(true))));
    let mixed = binary(lit(PengLiteral::Int(3), 1), PengBinaryOperator::Equals, lit(PengLiteral::Uint(3), 1), 1);
    assert!(matches!(fold_expression(mixed).unwrap().value, PengExpression::Binary { .. }));
}

#[test]
fn folds_negation() {
    let n = unary(PengUnaryOperator::Negate, lit(PengLiteral::Int(4), 1), 1);
    assert!(matches!(literal_value(&fold_expression(n).unwrap()), Some(PengLiteral::Int(-4))));
    let f = unary(PengUnaryOperator::Negate, lit(PengLiteral::Float32(1.5f32.to_bits()), 1), 1);
    match literal_value(&fold_expression(f).unwrap()) {
        Some(PengLiteral::Float32(bits)) => assert_eq!(f32::from_bits(*bits), -1.5f32),
        _ => panic!("expected a float"),
    }
    let m = unary(PengUnaryOperator::Negate, lit(PengLiteral::Int(isize::MIN), 1), 1);
    assert!(matches!(fold_expression(m).unwrap().value, PengExpression::Unary { .. }));
    let not = unary(PengUnaryOperator::Not, lit(PengLiteral::Bool(false), 1), 1);
    assert!(matches!(literal_value(&fold_expression(not).unwrap()), Some(PengLiteral::Bool(true))));
}

#[test]
fn simplifies_boolean_operations() {
    let cmp = || binary(ident("a", 1), PengBinaryOperator::LessThan, ident("b", 1), 2);
    let and = binary(lit(PengLiteral::Bool(true), 1), PengBinaryOperator::ShortCircuitAnd, cmp(), 3);
    let s = simplify_expression(and).unwrap();
    assert!(matches!(s.value, PengExpression::Binary { operator: PengBinaryOperator::LessThan, .. }));
    assert_eq!(s.position.line, 2);

    let or = binary(lit(PengLiteral::Bool(true), 1), PengBinaryOperator::ShortCircuitOr, ident("x", 1), 3);
    let s = simplify_expression(or).unwrap();
    assert!(matches!(literal_value(&s), Some(PengLiteral::Bool(true))));

    let unknown = binary(lit(PengLiteral::Bool(true), 1), PengBinaryOperator::ShortCircuitAnd, ident("x", 1), 3);
    assert!(matches!(simplify_expression(unknown).unwrap().value, PengExpression::Binary { .. }));

    let eq_false = binary(cmp(), PengBinaryOperator::Equals, lit(PengLiteral::Bool(false), 1), 4);
    let s = simplify_expression(eq_false).unwrap();
    assert!(matches!(s.value, PengExpression::Unary { operator: PengUnaryOperator::Not, .. }));

    let double = unary(PengUnaryOperator::Not, unary(PengUnaryOperator::Not, cmp(), 5), 6);
    let s = simplify_expression(double).unwrap();
    assert!(matches!(s.value, PengExpression::Binary { operator: PengBinaryOperator::LessThan, .. }));
}

#[test]
fn dead_code_keeps_statements_up_to_return() {
    let statements = vec![
        stmt(PengStatement::Expression(ident("a", 1)), 1),
        stmt(PengStatement::Return(None), 2),
        stmt(PengStatement::Expression(ident("b", 3)), 3),
    ];
    assert!(statement_stops_flow(&statements[1]));
    let prefix = vec![stmt(PengStatement::Expression(ident("a", 1)), 1), stmt(PengStatement::Return(None), 2)];
    assert!(block_stops_flow(&prefix));
    let kept = remove_unreachable_statements(statements).unwrap();
    assert_eq!(kept.len(), 2);
    assert!(matches!(kept[1].value, PengStatement::Return(None)));
}

#[test]
fn if_stops_flow_only_with_both_branches() {
    let ret = || vec![stmt(PengStatement::Break, 1)];
    let with_else = stmt(
        PengStatement::If(PengIfStatement { condition: ident("c", 1), then_branch: ret(), else_branch: Some(ret()) }),
        1,
    );
    let without_else = stmt(
        PengStatement::If(PengIfStatement { condition: ident("c", 1), then_branch: ret(), else_branch: None }),
        1,
    );
    assert!(statement_stops_flow(&with_else));
    assert!(!statement_stops_flow(&without_else));
}

#[test]
fn empty_blocks_are_dropped() {
    let statements = vec![
        stmt(PengStatement::Block(vec![]), 1),
        stmt(PengStatement::Expression(ident("a", 2)), 2),
        stmt(PengStatement::Block(vec![stmt(PengStatement::Continue, 3)]), 3),
        stmt(PengStatement::Block(vec![]), 4),
    ];
    assert!(statement_is_empty_block(&statements[0]));
    assert!(!statement_is_empty_block(&statements[2]));
    let kept = remove_empty_block_statements(statements).unwrap();
    assert_eq!(kept.len(), 2);
    assert_eq!(kept[0].position.line, 2);
    assert_eq!(kept[1].position.line, 3);
    assert!(statements_are_empty(&vec![]));
    assert!(empty_statements_to_none(Some(vec![])).unwrap().is_none());
    assert!(empty_statements_to_none(Some(kept)).unwrap().is_some());
}

#[test]
fn scope_replaces_recorded_constants() {
    let mut scope = PengConstantPropagationScope::new();
    let decl = PengBinded::Immutable(var_decl("n", Some(lit(PengLiteral::Int(10), 1)), 1));
    scope.record_binded_declaration(&decl).unwrap();
    let replaced = scope.replace_identifier(ident("n", 9)).unwrap();
    assert!(matches!(literal_value(&replaced), Some(PengLiteral::Int(10))));
    assert_eq!(replaced.position.line, 9);

    let mutable = PengBinded::Mutable(var_decl("m", Some(lit(PengLiteral::Int(1), 1)), 1));
    scope.record_binded_declaration(&mutable).unwrap();
    assert!(matches!(scope.replace_identifier(ident("m", 9)).unwrap().value, PengExpression::Identifier(_)));

    scope.push_frame();
    let shadow = PengBinded::Immutable(var_decl("n", Some(lit(PengLiteral::Int(20), 1)), 1));
    scope.record_binded_declaration(&shadow).unwrap();
    assert!(matches!(literal_value(&scope.replace_identifier(ident("n", 9)).unwrap()), Some(PengLiteral::Int(20))));
    scope.pop_frame().unwrap();
    assert!(matches!(literal_value(&scope.replace_identifier(ident("n", 9)).unwrap()), Some(PengLiteral::Int(10))));

    let assign = PengAssignStatement::Assign { target: ident("n", 3), value: lit(PengLiteral::Int(1), 3) };
    scope.record_assignment(&assign).unwrap();
    assert!(matches!(scope.replace_identifier(ident("n", 9)).unwrap().value, PengExpression::Identifier(_)));
}

#[test]
fn root_frame_cannot_be_left() {
    let mut scope = PengConstantPropagationScope::new();
    assert!(matches!(scope.pop_frame(), Err(PengError::SyntaxError(_))));
    scope.push_frame();
    assert!(scope.pop_frame().is_ok());
    let copy = scope.duplicate();
    let mut copy = copy;
    assert!(copy.pop_frame().is_err());
}

#[test]
fn only_scalar_literals_propagate() {
    assert!(can_propagate_literal(&PengLiteral::String("s".to_string())));
    assert!(can_propagate_literal(&PengLiteral::Nil));
    assert!(!can_propagate_literal(&PengLiteral::Vector(vec![])));
    assert!(can_propagate_expression(&lit(PengLiteral::Bool(true), 1)));
    assert!(!can_propagate_expression(&ident("x", 1)));
}

#[test]
fn configurations() {
    let none = PengOptimizerConfig::none();
    assert!(!none.constant_folding && !none.dead_code && !none.constant_propagation);
    let safe = PengOptimizerConfig::safe();
    assert!(safe.constant_folding && safe.boolean_simplification && safe.dead_code && safe.empty_blocks);
    assert!(!safe.constant_propagation);
    assert!(PengOptimizerConfig::aggressive().constant_propagation);
}

#[test]
fn optimizes_a_script() {
    let script = PengAST::Script(vec![
        stmt(
            PengStatement::Declaration(PengBinded::Immutable(var_decl(
                "k",
                Some(binary(lit(PengLiteral::Int(2), 1), PengBinaryOperator::Multiply, lit(PengLiteral::Int(21), 1), 1)),
                1,
            ))),
            1,
        ),
        stmt(PengStatement::Block(vec![]), 2),
        stmt(PengStatement::Return(Some(ident("k", 3))), 3),
        stmt(PengStatement::Expression(ident("unreached", 4)), 4),
    ]);
    match optimize_ast(script, PengOptimizerConfig::aggressive()).unwrap() {
        PengAST::Script(statements) => {
            assert_eq!(statements.len(), 2);
            match &statements[1].value {
                PengStatement::Return(Some(e)) => assert!(matches!(literal_value(e), Some(PengLiteral::Int(42)))),
                _ => panic!("expected a return"),
            }
        }
        _ => panic!("expected a script"),
    }
}

#[test]
fn none_config_changes_nothing_visible() {
    let script = PengAST::Script(vec![
        stmt(PengStatement::Return(Some(binary(lit(PengLiteral::Int(1), 1), PengBinaryOperator::Add, lit(PengLiteral::Int(1), 1), 1))), 1),
        stmt(PengStatement::Block(vec![]), 2),
    ]);
    match optimize_ast(script, PengOptimizerConfig::none()).unwrap() {
        PengAST::Script(statements) => {
            assert_eq!(statements.len(), 2);
            assert!(matches!(&statements[0].value, PengStatement::Return(Some(e)) if matches!(e.value, PengExpression::Binary { .. })));
        }
        _ => panic!("expected a script"),
    }
}

#[test]
fn program_keeps_its_declarations() {
    let program = PengAST::Program(vec![
        PengBinded::Immutable(var_decl("a", Some(lit(PengLiteral::Int(1), 1)), 1)),
        PengBinded::Mutable(var_decl("b", None, 2)),
    ]);
    match optimize_ast(program, PengOptimizerConfig::safe()).unwrap() {
        PengAST::Program(ds) => {
            assert_eq!(ds.len(), 2);
            assert_eq!(declaration_position(ds[1].value()).line, 2);
        }
        _ => panic!("expected a program"),
    }
}

#[test]
fn static_types() {
    let t = PengPositioned {
        position: at(1),
        value: PengTypeExpression::Vector(Box::new(PengPositioned { position: at(1), value: PengTypeExpression::Int })),
    };
    match static_type_from_expression(&t) {
        Some(PengType::Vector(inner)) => assert!(matches!(*inner, PengType::Int)),
        _ => panic!("expected a vector type"),
    }
    let custom = PengPositioned { position: at(1), value: PengTypeExpression::Custom(Box::new(ident("T", 1))) };
    assert!(static_type_from_expression(&custom).is_none());
    let op = PengPositioned { position: at(1), value: PengTypeExpression::Operation };
    assert!(matches!(static_type_from_expression(&op), Some(PengType::Operator)));
}

#[test]
fn function_bodies_lose_dead_code_and_empty_blocks() {
    let body = vec![
        stmt(PengStatement::Block(vec![]), 2),
        stmt(PengStatement::Return(None), 3),
        stmt(PengStatement::Break, 4),
    ];
    let function = PengDeclaration::Function(PengPositioned {
        position: at(1),
        value: PengFunctionDeclaration {
            name: PengPositioned { position: at(1), value: "f".to_string() },
            params: vec![],
            return_type: None,
            body,
        },
    });
    match optimize_ast(PengAST::Program(vec![PengBinded::Immutable(function)]), PengOptimizerConfig::safe()).unwrap() {
        PengAST::Program(ds) => {
            assert_eq!(ds.len(), 1);
            match ds[0].value() {
                PengDeclaration::Function(f) => {
                    assert_eq!(f.value.name.value, "f");
                    assert_eq!(f.value.body.len(), 1);
                    assert!(matches!(f.value.body[0].value, PengStatement::Return(None)));
                }
                _ => panic!("expected a function"),
            }
        }
        _ => panic!("expected a program"),
    }
}

#[test]
fn nested_blocks_are_cleaned_too() {
    let inner = vec![
        stmt(PengStatement::Block(vec![]), 2),
        stmt(PengStatement::Break, 3),
        stmt(PengStatement::Expression(ident("never", 4)), 4),
    ];
    let script = PengAST::Script(vec![stmt(PengStatement::Loop(inner), 1)]);
    match optimize_ast(script, PengOptimizerConfig::safe()).unwrap() {
        PengAST::Script(statements) => {
            assert_eq!(statements.len(), 1);
            match &statements[0].value {
                PengStatement::Loop(body) => {
                    assert_eq!(body.len(), 1);
                    assert!(matches!(body[0].value, PengStatement::Break));
                }
                _ => panic!("expected a loop"),
            }
        }
        _ => panic!("expected a script"),
    }
}

#[test]
fn propagation_stops_after_an_assignment() {
    let script = PengAST::Script(vec![
        stmt(PengStatement::Declaration(PengBinded::Immutable(var_decl("x", Some(lit(PengLiteral::Int(10), 1)), 1))), 1),
        stmt(PengStatement::Expression(ident("x", 2)), 2),
        stmt(
            PengStatement::Assign(PengAssignStatement::Assign { target: ident("x", 3), value: lit(PengLiteral::Int(2), 3) }),
            3,
        ),
        stmt(PengStatement::Expression(ident("x", 4)), 4),
    ]);
    match optimize_ast(script, PengOptimizerConfig::aggressive()).unwrap() {
        PengAST::Script(s) => {
            assert_eq!(s.len(), 4);
            match &s[1].value {
                PengStatement::Expression(e) => {
                    assert!(matches!(literal_value(e), Some(PengLiteral::Int(10))));
                    assert_eq!(e.position.line, 2);
                }
                _ => panic!("expected an expression"),
            }
            match &s[2].value {
                PengStatement::Assign(PengAssignStatement::Assign { target, value }) => {
                    assert!(matches!(&target.value, PengExpression::Identifier(n) if n.value == "x"));
                    assert!(matches!(literal_value(value), Some(PengLiteral::Int(2))));
                }
                _ => panic!("expected an assignment"),
            }
            match &s[3].value {
                PengStatement::Expression(e) => {
                    assert!(matches!(&e.value, PengExpression::Identifier(n) if n.value == "x"));
                }
                _ => panic!("expected an expression"),
            }
        }
        _ => panic!("expected a script"),
    }
}

#[test]
fn function_bodies_start_with_a_fresh_scope() {
    let function = PengDeclaration::Function(PengPositioned {
        position: at(2),
        value: PengFunctionDeclaration {
            name: PengPositioned { position: at(2), value: "f".to_string() },
            params: vec![],
            return_type: None,
            body: vec![stmt(PengStatement::Return(Some(ident("n", 3))), 3)],
        },
    });
    let program = PengAST::Program(vec![
        PengBinded::Immutable(var_decl("n", Some(lit(PengLiteral::Int(1), 1)), 1)),
        PengBinded::Immutable(function),
    ]);
    match optimize_ast(program, PengOptimizerConfig::aggressive()).unwrap() {
        PengAST::Program(ds) => match ds[1].value() {
            PengDeclaration::Function(f) => match &f.value.body[0].value {
                PengStatement::Return(Some(e)) => {
                    assert!(matches!(&e.value, PengExpression::Identifier(n) if n.value == "n"))
                }
                _ => panic!("expected a return"),
            },
            _ => panic!("expected a function"),
        },
        _ => panic!("expected a program"),
    }
}

#[test]
fn root_frame_error_is_named() {
    let mut scope = PengConstantPropagationScope::new();
    match scope.pop_frame() {
        Err(PengError::SyntaxError(m)) => assert_eq!(m, "cannot pop root constant propagation scope"),
        _ => panic!("expected a syntax error"),
    }
}
