use vstd::prelude::*;
use crate::binding::PengBinded;
use crate::optimizer::config::PengOptimizerConfig;
use crate::parser::ast::{
    PengAST, PengAssignStatement, PengBindedDeclaration, PengDeclaration, PengExpression, PengLiteral,
    PengMatchArm, PengObjectFieldLiteral, PengPositionedExpression, PengPositionedFunctionCallArg,
    PengPositionedFunctionDeclaration, PengPositionedLiteral, PengPositionedStatement,
    PengPositionedVariableDeclaration, PengStatement,
};

verus! {

/// The configuration that runs no pass at all.
pub open spec fn no_passes(c: PengOptimizerConfig) -> bool {
    !c.constant_folding && !c.boolean_simplification && !c.dead_code && !c.empty_blocks && !c.constant_propagation
}

// Two trees are the same when they have the same shape, positions, names and literals;
// lists are compared item by item (the lists themselves are new ones).

pub open spec fn same_expression(a: PengPositionedExpression, b: PengPositionedExpression) -> bool
    decreases a, 1nat,
{
    a.position == b.position && match (a.value, b.value) {
        (PengExpression::Literal(x), PengExpression::Literal(y)) => same_literal(x, y),
        (PengExpression::Unary { operator: o1, value: v1 }, PengExpression::Unary { operator: o2, value: v2 }) => o1
            == o2 && same_expression(*v1, *v2),
        (
            PengExpression::Binary { left: l1, operator: o1, right: r1 },
            PengExpression::Binary { left: l2, operator: o2, right: r2 },
        ) => o1 == o2 && same_expression(*l1, *l2) && same_expression(*r1, *r2),
        (PengExpression::FuncCall(c1), PengExpression::FuncCall(c2)) => same_expression(*c1.function, *c2.function)
            && same_arguments(c1.args@, c2.args@),
        (PengExpression::MethodCall(c1), PengExpression::MethodCall(c2)) => c1.method == c2.method && same_expression(
            *c1.object,
            *c2.object,
        ) && same_arguments(c1.args@, c2.args@),
        (PengExpression::AttributeAccess(x), PengExpression::AttributeAccess(y)) => x.name == y.name
            && same_expression(*x.object, *y.object),
        (PengExpression::MemberAccess(x), PengExpression::MemberAccess(y)) => x.name == y.name && same_expression(
            *x.object,
            *y.object,
        ),
        (PengExpression::Index(x), PengExpression::Index(y)) => same_expression(*x.object, *y.object)
            && same_expression(*x.index, *y.index),
        (PengExpression::ObjectConstruction(x), PengExpression::ObjectConstruction(y)) => same_expression(
            *x.object_type,
            *y.object_type,
        ) && same_fields(x.fields@, y.fields@),
        (
            PengExpression::OperationCall { left: l1, operation: o1, right: r1 },
            PengExpression::OperationCall { left: l2, operation: o2, right: r2 },
        ) => same_expression(*l1, *l2) && same_expression(*o1, *o2) && same_expression(*r1, *r2),
        (PengExpression::Try { value: v1, elsing: e1 }, PengExpression::Try { value: v2, elsing: e2 }) => same_expression(
            *v1,
            *v2,
        ) && same_optional_boxed_expression(e1, e2),
        (x, y) => x == y,
    }
}

pub open spec fn same_optional_expression(a: Option<PengPositionedExpression>, b: Option<PengPositionedExpression>) -> bool
    decreases a, 2nat,
{
    match (a, b) {
        (Some(x), Some(y)) => same_expression(x, y),
        (None, None) => true,
        _ => false,
    }
}

pub open spec fn same_optional_boxed_expression(
    a: Option<Box<PengPositionedExpression>>,
    b: Option<Box<PengPositionedExpression>>,
) -> bool
    decreases a, 2nat,
{
    match (a, b) {
        (Some(x), Some(y)) => same_expression(*x, *y),
        (None, None) => true,
        _ => false,
    }
}

pub open spec fn same_expressions(a: Seq<PengPositionedExpression>, b: Seq<PengPositionedExpression>) -> bool
    decreases a, 0nat,
{
    a.len() == b.len() && (a.len() == 0 || (same_expressions(a.drop_last(), b.drop_last()) && same_expression(
        a.last(),
        b.last(),
    )))
}

pub open spec fn same_arguments(a: Seq<PengPositionedFunctionCallArg>, b: Seq<PengPositionedFunctionCallArg>) -> bool
    decreases a, 0nat,
{
    a.len() == b.len() && (a.len() == 0 || (same_arguments(a.drop_last(), b.drop_last()) && a.last().position
        == b.last().position && a.last().value.variadic == b.last().value.variadic && same_expression(
        a.last().value.expression,
        b.last().value.expression,
    )))
}

pub open spec fn same_fields(a: Seq<PengObjectFieldLiteral>, b: Seq<PengObjectFieldLiteral>) -> bool
    decreases a, 0nat,
{
    a.len() == b.len() && (a.len() == 0 || (same_fields(a.drop_last(), b.drop_last()) && a.last().name
        == b.last().name && same_expression(a.last().value, b.last().value)))
}

pub open spec fn same_literal(a: PengPositionedLiteral, b: PengPositionedLiteral) -> bool
    decreases a, 1nat,
{
    a.position == b.position && match (a.value, b.value) {
        (PengLiteral::Vector(x), PengLiteral::Vector(y)) => same_expressions(x@, y@),
        (PengLiteral::Object(x), PengLiteral::Object(y)) => same_fields(x@, y@),
        (PengLiteral::Function(f), PengLiteral::Function(g)) => f.params == g.params && f.return_type
            == g.return_type && same_statements(f.body@, g.body@),
        (PengLiteral::Module(m), PengLiteral::Module(n)) => same_declarations(m.body@, n.body@),
        (PengLiteral::Operation(f), PengLiteral::Operation(g)) => f.params == g.params && f.return_type
            == g.return_type && same_statements(f.body@, g.body@),
        (PengLiteral::Type(t), PengLiteral::Type(u)) => t.supers == u.supers && same_variables(
            t.fields@,
            u.fields@,
        ) && same_functions(t.functions@, u.functions@),
        (x, y) => x == y,
    }
}

pub open spec fn same_statement(a: PengPositionedStatement, b: PengPositionedStatement) -> bool
    decreases a, 1nat,
{
    a.position == b.position && match (a.value, b.value) {
        (PengStatement::Block(x), PengStatement::Block(y)) => same_statements(x@, y@),
        (PengStatement::Declaration(x), PengStatement::Declaration(y)) => same_binded_declaration(x, y),
        (PengStatement::Return(x), PengStatement::Return(y)) => same_optional_expression(x, y),
        (PengStatement::If(x), PengStatement::If(y)) => same_expression(x.condition, y.condition)
            && same_statements(x.then_branch@, y.then_branch@) && same_optional_statements(
            x.else_branch,
            y.else_branch,
        ),
        (PengStatement::Match(x), PengStatement::Match(y)) => same_expression(x.value, y.value) && same_arms(
            x.arms@,
            y.arms@,
        ) && same_optional_statements(x.elsing, y.elsing),
        (PengStatement::While(x), PengStatement::While(y)) => same_expression(x.condition, y.condition)
            && same_statements(x.body@, y.body@),
        (PengStatement::For(x), PengStatement::For(y)) => same_optional_boxed_statement(
            x.initializer,
            y.initializer,
        ) && same_optional_expression(x.condition, y.condition) && same_optional_boxed_statement(
            x.increment,
            y.increment,
        ) && same_statements(x.body@, y.body@),
        (PengStatement::Loop(x), PengStatement::Loop(y)) => same_statements(x@, y@),
        (PengStatement::Assign(x), PengStatement::Assign(y)) => same_assignment(x, y),
        (PengStatement::Expression(x), PengStatement::Expression(y)) => same_expression(x, y),
        (x, y) => x == y,
    }
}

pub open spec fn same_optional_boxed_statement(
    a: Option<Box<PengPositionedStatement>>,
    b: Option<Box<PengPositionedStatement>>,
) -> bool
    decreases a, 2nat,
{
    match (a, b) {
        (Some(x), Some(y)) => same_statement(*x, *y),
        (None, None) => true,
        _ => false,
    }
}

pub open spec fn same_assignment(a: PengAssignStatement, b: PengAssignStatement) -> bool
    decreases a, 1nat,
{
    match (a, b) {
        (PengAssignStatement::Assign { target: t1, value: v1 }, PengAssignStatement::Assign { target: t2, value: v2 }) =>
            same_expression(t1, t2) && same_expression(v1, v2),
        (
            PengAssignStatement::AddAssign { target: t1, value: v1 },
            PengAssignStatement::AddAssign { target: t2, value: v2 },
        ) => same_expression(t1, t2) && same_expression(v1, v2),
        (
            PengAssignStatement::SubtractAssign { target: t1, value: v1 },
            PengAssignStatement::SubtractAssign { target: t2, value: v2 },
        ) => same_expression(t1, t2) && same_expression(v1, v2),
        (
            PengAssignStatement::MultiplyAssign { target: t1, value: v1 },
            PengAssignStatement::MultiplyAssign { target: t2, value: v2 },
        ) => same_expression(t1, t2) && same_expression(v1, v2),
        (
            PengAssignStatement::DivideAssign { target: t1, value: v1 },
            PengAssignStatement::DivideAssign { target: t2, value: v2 },
        ) => same_expression(t1, t2) && same_expression(v1, v2),
        (
            PengAssignStatement::PowerAssign { target: t1, value: v1 },
            PengAssignStatement::PowerAssign { target: t2, value: v2 },
        ) => same_expression(t1, t2) && same_expression(v1, v2),
        (
            PengAssignStatement::RemainderAssign { target: t1, value: v1 },
            PengAssignStatement::RemainderAssign { target: t2, value: v2 },
        ) => same_expression(t1, t2) && same_expression(v1, v2),
        _ => false,
    }
}

pub open spec fn same_statements(a: Seq<PengPositionedStatement>, b: Seq<PengPositionedStatement>) -> bool
    decreases a, 0nat,
{
    a.len() == b.len() && (a.len() == 0 || (same_statements(a.drop_last(), b.drop_last()) && same_statement(
        a.last(),
        b.last(),
    )))
}

pub open spec fn same_optional_statements(
    a: Option<Vec<PengPositionedStatement>>,
    b: Option<Vec<PengPositionedStatement>>,
) -> bool
    decreases a, 2nat,
{
    match (a, b) {
        (Some(x), Some(y)) => same_statements(x@, y@),
        (None, None) => true,
        _ => false,
    }
}

pub open spec fn same_arms(a: Seq<PengMatchArm>, b: Seq<PengMatchArm>) -> bool
    decreases a, 0nat,
{
    a.len() == b.len() && (a.len() == 0 || (same_arms(a.drop_last(), b.drop_last()) && same_expression(
        a.last().pattern,
        b.last().pattern,
    ) && same_statements(a.last().body@, b.last().body@)))
}

pub open spec fn same_declaration(a: PengDeclaration, b: PengDeclaration) -> bool
    decreases a, 1nat,
{
    match (a, b) {
        (PengDeclaration::Var(x), PengDeclaration::Var(y)) => x.position == y.position && x.value.name
            == y.value.name && x.value.type_hint == y.value.type_hint && same_optional_expression(
            x.value.value,
            y.value.value,
        ),
        (PengDeclaration::As(x), PengDeclaration::As(y)) => x.position == y.position && x.value.name
            == y.value.name && x.value.type_hint == y.value.type_hint && same_expression(x.value.value, y.value.value),
        (PengDeclaration::Function(x), PengDeclaration::Function(y)) => x.position == y.position && x.value.name
            == y.value.name && x.value.params == y.value.params && x.value.return_type == y.value.return_type
            && same_statements(x.value.body@, y.value.body@),
        (PengDeclaration::Type(x), PengDeclaration::Type(y)) => x.position == y.position && x.value.name
            == y.value.name && x.value.value == y.value.value && x.value.supers == y.value.supers && same_variables(
            x.value.fields@,
            y.value.fields@,
        ) && same_functions(x.value.functions@, y.value.functions@),
        (PengDeclaration::Module(x), PengDeclaration::Module(y)) => x.position == y.position && x.value.name
            == y.value.name && same_declarations(x.value.body@, y.value.body@),
        (PengDeclaration::Operation(x), PengDeclaration::Operation(y)) => x.position == y.position && x.value.name
            == y.value.name && x.value.params == y.value.params && x.value.return_type == y.value.return_type
            && same_statements(x.value.body@, y.value.body@),
        _ => false,
    }
}

pub open spec fn same_binded_declaration(a: PengBindedDeclaration, b: PengBindedDeclaration) -> bool
    decreases a, 2nat,
{
    match (a, b) {
        (PengBinded::Mutable(x), PengBinded::Mutable(y)) => same_declaration(x, y),
        (PengBinded::Immutable(x), PengBinded::Immutable(y)) => same_declaration(x, y),
        _ => false,
    }
}

pub open spec fn same_declarations(a: Seq<PengBindedDeclaration>, b: Seq<PengBindedDeclaration>) -> bool
    decreases a, 0nat,
{
    a.len() == b.len() && (a.len() == 0 || (same_declarations(a.drop_last(), b.drop_last())
        && same_binded_declaration(a.last(), b.last())))
}

pub open spec fn same_variable(
    a: PengBinded<PengPositionedVariableDeclaration>,
    b: PengBinded<PengPositionedVariableDeclaration>,
) -> bool
    decreases a, 1nat,
{
    let (x, y) = (a.bound(), b.bound());
    (a is Mutable) == (b is Mutable) && x.position == y.position && x.value.name == y.value.name
        && x.value.type_hint == y.value.type_hint && same_optional_expression(x.value.value, y.value.value)
}

pub open spec fn same_variables(
    a: Seq<PengBinded<PengPositionedVariableDeclaration>>,
    b: Seq<PengBinded<PengPositionedVariableDeclaration>>,
) -> bool
    decreases a, 0nat,
{
    a.len() == b.len() && (a.len() == 0 || (same_variables(a.drop_last(), b.drop_last()) && same_variable(
        a.last(),
        b.last(),
    )))
}

pub open spec fn same_function(
    a: PengBinded<PengPositionedFunctionDeclaration>,
    b: PengBinded<PengPositionedFunctionDeclaration>,
) -> bool
    decreases a, 1nat,
{
    let (x, y) = (a.bound(), b.bound());
    (a is Mutable) == (b is Mutable) && x.position == y.position && x.value.name == y.value.name
        && x.value.params == y.value.params && x.value.return_type == y.value.return_type && same_statements(
        x.value.body@,
        y.value.body@,
    )
}

pub open spec fn same_functions(
    a: Seq<PengBinded<PengPositionedFunctionDeclaration>>,
    b: Seq<PengBinded<PengPositionedFunctionDeclaration>>,
) -> bool
    decreases a, 0nat,
{
    a.len() == b.len() && (a.len() == 0 || (same_functions(a.drop_last(), b.drop_last()) && same_function(
        a.last(),
        b.last(),
    )))
}

pub open spec fn same_ast(a: PengAST, b: PengAST) -> bool {
    match (a, b) {
        (PengAST::Program(x), PengAST::Program(y)) => same_declarations(x@, y@),
        (PengAST::Script(x), PengAST::Script(y)) => same_statements(x@, y@),
        _ => false,
    }
}


// Every tree is the same as itself.

pub proof fn lemma_same_expression_refl(a: PengPositionedExpression)
    ensures
        same_expression(a, a),
    decreases a, 1nat,
{
    match a.value {
        PengExpression::Literal(x) => lemma_same_literal_refl(x),
        PengExpression::Unary { value, .. } => lemma_same_expression_refl(*value),
        PengExpression::Binary { left, right, .. } => {
            lemma_same_expression_refl(*left);
            lemma_same_expression_refl(*right);
        },
        PengExpression::FuncCall(c) => {
            lemma_same_expression_refl(*c.function);
            lemma_same_arguments_refl(c.args@);
        },
        PengExpression::MethodCall(c) => {
            lemma_same_expression_refl(*c.object);
            lemma_same_arguments_refl(c.args@);
        },
        PengExpression::AttributeAccess(x) => lemma_same_expression_refl(*x.object),
        PengExpression::MemberAccess(x) => lemma_same_expression_refl(*x.object),
        PengExpression::Index(x) => {
            lemma_same_expression_refl(*x.object);
            lemma_same_expression_refl(*x.index);
        },
        PengExpression::ObjectConstruction(x) => {
            lemma_same_expression_refl(*x.object_type);
            lemma_same_fields_refl(x.fields@);
        },
        PengExpression::OperationCall { left, operation, right } => {
            lemma_same_expression_refl(*left);
            lemma_same_expression_refl(*operation);
            lemma_same_expression_refl(*right);
        },
        PengExpression::Try { value, elsing } => {
            lemma_same_expression_refl(*value);
            match elsing {
                Some(e) => lemma_same_expression_refl(*e),
                None => {},
            }
            assert(same_optional_boxed_expression(elsing, elsing));
        },
        _ => {},
    }
}

pub proof fn lemma_same_optional_expression_refl(a: Option<PengPositionedExpression>)
    ensures
        same_optional_expression(a, a),
    decreases a, 2nat,
{
    match a {
        Some(x) => lemma_same_expression_refl(x),
        None => {},
    }
}

pub proof fn lemma_same_expressions_refl(a: Seq<PengPositionedExpression>)
    ensures
        same_expressions(a, a),
    decreases a, 0nat,
{
    if a.len() > 0 {
        lemma_same_expressions_refl(a.drop_last());
        lemma_same_expression_refl(a.last());
    }
}

pub proof fn lemma_same_arguments_refl(a: Seq<PengPositionedFunctionCallArg>)
    ensures
        same_arguments(a, a),
    decreases a, 0nat,
{
    if a.len() > 0 {
        lemma_same_arguments_refl(a.drop_last());
        lemma_same_expression_refl(a.last().value.expression);
    }
}

pub proof fn lemma_same_fields_refl(a: Seq<PengObjectFieldLiteral>)
    ensures
        same_fields(a, a),
    decreases a, 0nat,
{
    if a.len() > 0 {
        lemma_same_fields_refl(a.drop_last());
        lemma_same_expression_refl(a.last().value);
    }
}

pub proof fn lemma_same_literal_refl(a: PengPositionedLiteral)
    ensures
        same_literal(a, a),
    decreases a, 1nat,
{
    match a.value {
        PengLiteral::Vector(x) => lemma_same_expressions_refl(x@),
        PengLiteral::Object(x) => lemma_same_fields_refl(x@),
        PengLiteral::Function(f) => lemma_same_statements_refl(f.body@),
        PengLiteral::Module(m) => lemma_same_declarations_refl(m.body@),
        PengLiteral::Operation(f) => lemma_same_statements_refl(f.body@),
        PengLiteral::Type(t) => {
            lemma_same_variables_refl(t.fields@);
            lemma_same_functions_refl(t.functions@);
        },
        _ => {},
    }
}

pub proof fn lemma_same_statement_refl(a: PengPositionedStatement)
    ensures
        same_statement(a, a),
    decreases a, 1nat,
{
    match a.value {
        PengStatement::Block(x) => lemma_same_statements_refl(x@),
        PengStatement::Declaration(x) => lemma_same_binded_declaration_refl(x),
        PengStatement::Return(x) => lemma_same_optional_expression_refl(x),
        PengStatement::If(x) => {
            lemma_same_expression_refl(x.condition);
            lemma_same_statements_refl(x.then_branch@);
            match x.else_branch {
                Some(b) => lemma_same_statements_refl(b@),
                None => {},
            }
        },
        PengStatement::Match(x) => {
            lemma_same_expression_refl(x.value);
            lemma_same_arms_refl(x.arms@);
            match x.elsing {
                Some(b) => lemma_same_statements_refl(b@),
                None => {},
            }
        },
        PengStatement::While(x) => {
            lemma_same_expression_refl(x.condition);
            lemma_same_statements_refl(x.body@);
        },
        PengStatement::For(x) => {
            match x.initializer {
                Some(p) => lemma_same_statement_refl(*p),
                None => {},
            }
            lemma_same_optional_expression_refl(x.condition);
            match x.increment {
                Some(p) => lemma_same_statement_refl(*p),
                None => {},
            }
            lemma_same_statements_refl(x.body@);
        },
        PengStatement::Loop(x) => lemma_same_statements_refl(x@),
        PengStatement::Assign(x) => lemma_same_assignment_refl(x),
        PengStatement::Expression(x) => lemma_same_expression_refl(x),
        _ => {},
    }
}

pub proof fn lemma_same_assignment_refl(a: PengAssignStatement)
    ensures
        same_assignment(a, a),
    decreases a, 1nat,
{
    match a {
        PengAssignStatement::Assign { target, value } => {
            lemma_same_expression_refl(target);
            lemma_same_expression_refl(value);
        },
        PengAssignStatement::AddAssign { target, value } => {
            lemma_same_expression_refl(target);
            lemma_same_expression_refl(value);
        },
        PengAssignStatement::SubtractAssign { target, value } => {
            lemma_same_expression_refl(target);
            lemma_same_expression_refl(value);
        },
        PengAssignStatement::MultiplyAssign { target, value } => {
            lemma_same_expression_refl(target);
            lemma_same_expression_refl(value);
        },
        PengAssignStatement::DivideAssign { target, value } => {
            lemma_same_expression_refl(target);
            lemma_same_expression_refl(value);
        },
        PengAssignStatement::PowerAssign { target, value } => {
            lemma_same_expression_refl(target);
            lemma_same_expression_refl(value);
        },
        PengAssignStatement::RemainderAssign { target, value } => {
            lemma_same_expression_refl(target);
            lemma_same_expression_refl(value);
        },
    }
}

pub proof fn lemma_same_statements_refl(a: Seq<PengPositionedStatement>)
    ensures
        same_statements(a, a),
    decreases a, 0nat,
{
    if a.len() > 0 {
        lemma_same_statements_refl(a.drop_last());
        lemma_same_statement_refl(a.last());
    }
}

pub proof fn lemma_same_arms_refl(a: Seq<PengMatchArm>)
    ensures
        same_arms(a, a),
    decreases a, 0nat,
{
    if a.len() > 0 {
        lemma_same_arms_refl(a.drop_last());
        lemma_same_expression_refl(a.last().pattern);
        lemma_same_statements_refl(a.last().body@);
    }
}

pub proof fn lemma_same_declaration_refl(a: PengDeclaration)
    ensures
        same_declaration(a, a),
    decreases a, 1nat,
{
    match a {
        PengDeclaration::Var(x) => lemma_same_optional_expression_refl(x.value.value),
        PengDeclaration::As(x) => lemma_same_expression_refl(x.value.value),
        PengDeclaration::Function(x) => lemma_same_statements_refl(x.value.body@),
        PengDeclaration::Type(x) => {
            lemma_same_variables_refl(x.value.fields@);
            lemma_same_functions_refl(x.value.functions@);
        },
        PengDeclaration::Module(x) => lemma_same_declarations_refl(x.value.body@),
        PengDeclaration::Operation(x) => lemma_same_statements_refl(x.value.body@),
    }
}

pub proof fn lemma_same_binded_declaration_refl(a: PengBindedDeclaration)
    ensures
        same_binded_declaration(a, a),
    decreases a, 2nat,
{
    match a {
        PengBinded::Mutable(x) => lemma_same_declaration_refl(x),
        PengBinded::Immutable(x) => lemma_same_declaration_refl(x),
    }
}

pub proof fn lemma_same_declarations_refl(a: Seq<PengBindedDeclaration>)
    ensures
        same_declarations(a, a),
    decreases a, 0nat,
{
    if a.len() > 0 {
        lemma_same_declarations_refl(a.drop_last());
        lemma_same_binded_declaration_refl(a.last());
    }
}

pub proof fn lemma_same_variables_refl(a: Seq<PengBinded<PengPositionedVariableDeclaration>>)
    ensures
        same_variables(a, a),
    decreases a, 0nat,
{
    if a.len() > 0 {
        lemma_same_variables_refl(a.drop_last());
        let x = a.last();
        assert(decreases_to!(a => x));
        match x {
            PengBinded::Mutable(v) => lemma_same_optional_expression_refl(v.value.value),
            PengBinded::Immutable(v) => lemma_same_optional_expression_refl(v.value.value),
        }
        assert(same_variable(x, x));
    }
}

pub proof fn lemma_same_functions_refl(a: Seq<PengBinded<PengPositionedFunctionDeclaration>>)
    ensures
        same_functions(a, a),
    decreases a, 0nat,
{
    if a.len() > 0 {
        lemma_same_functions_refl(a.drop_last());
        let x = a.last();
        assert(decreases_to!(a => x));
        match x {
            PengBinded::Mutable(v) => lemma_same_statements_refl(v.value.body@),
            PengBinded::Immutable(v) => lemma_same_statements_refl(v.value.body@),
        }
        assert(same_function(x, x));
    }
}

} // verus!
