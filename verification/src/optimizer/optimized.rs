use vstd::prelude::*;
use crate::binding::PengBinded;
use crate::optimizer::config::PengOptimizerConfig;
use crate::optimizer::constant_propagation::PengConstantPropagationEntry;
use crate::optimizer::dead_code::stops_flow;
use crate::optimizer::empty_blocks::not_empty_block;
use crate::optimizer::optimizer::{declaration_recorded, passes_give, statement_recorded};
use crate::parser::ast::{
    PengAST, PengAssignStatement, PengBindedDeclaration, PengDeclaration, PengExpression, PengLiteral,
    PengMatchArm, PengObjectFieldLiteral, PengPositionedExpression, PengPositionedFunctionCallArg,
    PengPositionedFunctionDeclaration, PengPositionedLiteral, PengPositionedStatement,
    PengPositionedVariableDeclaration, PengStatement,
};

verus! {

// What the optimizer makes of a tree: every expression is rebuilt from its optimized
// parts and then goes through the enabled expression passes, in the scope of the names
// known where it stands; every list of statements is optimized one statement after the
// other, each in the scope left by those before it, cut after a flow stop when dead code
// is removed and rid of empty blocks when those are removed.

/// The scope at the start of a function or operation body or of a module: one empty frame.
pub open spec fn fresh_scope() -> Seq<Map<Seq<char>, PengConstantPropagationEntry>> {
    seq![Map::<Seq<char>, PengConstantPropagationEntry>::empty()]
}

/// The scope of a nested block: a new empty frame on top.
pub open spec fn block_scope(
    sc: Seq<Map<Seq<char>, PengConstantPropagationEntry>>,
) -> Seq<Map<Seq<char>, PengConstantPropagationEntry>> {
    sc.push(Map::<Seq<char>, PengConstantPropagationEntry>::empty())
}

/// The scope after the optimized statements `m`, when constant propagation is on.
pub open spec fn scope_after(
    m: Seq<PengPositionedStatement>,
    c: PengOptimizerConfig,
    sc: Seq<Map<Seq<char>, PengConstantPropagationEntry>>,
) -> Seq<Map<Seq<char>, PengConstantPropagationEntry>>
    decreases m.len(),
{
    if m.len() == 0 {
        sc
    } else {
        let before = scope_after(m.drop_last(), c, sc);
        if c.constant_propagation {
            statement_recorded(before, m.last())
        } else {
            before
        }
    }
}

/// The scope after the optimized declarations `m`, when constant propagation is on.
pub open spec fn scope_after_declarations(
    m: Seq<PengBindedDeclaration>,
    c: PengOptimizerConfig,
    sc: Seq<Map<Seq<char>, PengConstantPropagationEntry>>,
) -> Seq<Map<Seq<char>, PengConstantPropagationEntry>>
    decreases m.len(),
{
    if m.len() == 0 {
        sc
    } else {
        let before = scope_after_declarations(m.drop_last(), c, sc);
        if c.constant_propagation {
            declaration_recorded(before, m.last())
        } else {
            before
        }
    }
}

/// `b` is what optimizing the expression `a` gives in the scope `sc`.
pub open spec fn optimized_expression(
    a: PengPositionedExpression,
    b: PengPositionedExpression,
    c: PengOptimizerConfig,
    sc: Seq<Map<Seq<char>, PengConstantPropagationEntry>>,
) -> bool
    decreases a, 3nat,
{
    exists|r: PengPositionedExpression| rebuilt_expression(a, r, c, sc) && #[trigger] passes_give(r, c, sc, b)
}

/// An expression whose parts were optimized into `r`, and on which the passes gave `b`,
/// is optimized into `b`.
pub proof fn lemma_optimized_expression_intro(
    a: PengPositionedExpression,
    r: PengPositionedExpression,
    b: PengPositionedExpression,
    c: PengOptimizerConfig,
    sc: Seq<Map<Seq<char>, PengConstantPropagationEntry>>,
)
    requires
        rebuilt_expression(a, r, c, sc),
        passes_give(r, c, sc, b),
    ensures
        optimized_expression(a, b, c, sc),
{
}

/// `r` is `a` with each of its parts optimized, before the passes run on `a` itself.
pub open spec fn rebuilt_expression(
    a: PengPositionedExpression,
    r: PengPositionedExpression,
    c: PengOptimizerConfig,
    sc: Seq<Map<Seq<char>, PengConstantPropagationEntry>>,
) -> bool
    decreases a, 2nat,
{
    a.position == r.position && match (a.value, r.value) {
        (PengExpression::Literal(x), PengExpression::Literal(y)) => optimized_literal(x, y, c, sc),
        (PengExpression::Identifier(x), PengExpression::Identifier(y)) => x == y,
        (PengExpression::Type(x), PengExpression::Type(y)) => x == y,
        (PengExpression::Unary { operator: o1, value: v1 }, PengExpression::Unary { operator: o2, value: v2 }) => o1
            == o2 && optimized_expression(*v1, *v2, c, sc),
        (
            PengExpression::Binary { left: l1, operator: o1, right: r1 },
            PengExpression::Binary { left: l2, operator: o2, right: r2 },
        ) => o1 == o2 && optimized_expression(*l1, *l2, c, sc) && optimized_expression(*r1, *r2, c, sc),
        (PengExpression::FuncCall(x), PengExpression::FuncCall(y)) => optimized_expression(
            *x.function,
            *y.function,
            c,
            sc,
        ) && optimized_arguments(x.args@, y.args@, c, sc),
        (PengExpression::MethodCall(x), PengExpression::MethodCall(y)) => x.method == y.method
            && optimized_expression(*x.object, *y.object, c, sc) && optimized_arguments(x.args@, y.args@, c, sc),
        (PengExpression::AttributeAccess(x), PengExpression::AttributeAccess(y)) => x.name == y.name
            && optimized_expression(*x.object, *y.object, c, sc),
        (PengExpression::MemberAccess(x), PengExpression::MemberAccess(y)) => x.name == y.name
            && optimized_expression(*x.object, *y.object, c, sc),
        (PengExpression::Index(x), PengExpression::Index(y)) => optimized_expression(*x.object, *y.object, c, sc)
            && optimized_expression(*x.index, *y.index, c, sc),
        (PengExpression::ObjectConstruction(x), PengExpression::ObjectConstruction(y)) => optimized_expression(
            *x.object_type,
            *y.object_type,
            c,
            sc,
        ) && optimized_fields(x.fields@, y.fields@, c, sc),
        (
            PengExpression::OperationCall { left: l1, operation: o1, right: r1 },
            PengExpression::OperationCall { left: l2, operation: o2, right: r2 },
        ) => optimized_expression(*l1, *l2, c, sc) && optimized_expression(*o1, *o2, c, sc) && optimized_expression(
            *r1,
            *r2,
            c,
            sc,
        ),
        (PengExpression::Try { value: v1, elsing: e1 }, PengExpression::Try { value: v2, elsing: e2 }) =>
            optimized_expression(*v1, *v2, c, sc) && optimized_boxed_expression(e1, e2, c, sc),
        _ => false,
    }
}

pub open spec fn optimized_boxed_expression(
    a: Option<Box<PengPositionedExpression>>,
    b: Option<Box<PengPositionedExpression>>,
    c: PengOptimizerConfig,
    sc: Seq<Map<Seq<char>, PengConstantPropagationEntry>>,
) -> bool
    decreases a, 4nat,
{
    match (a, b) {
        (Some(x), Some(y)) => optimized_expression(*x, *y, c, sc),
        (None, None) => true,
        _ => false,
    }
}

pub open spec fn optimized_optional_expression(
    a: Option<PengPositionedExpression>,
    b: Option<PengPositionedExpression>,
    c: PengOptimizerConfig,
    sc: Seq<Map<Seq<char>, PengConstantPropagationEntry>>,
) -> bool
    decreases a, 4nat,
{
    match (a, b) {
        (Some(x), Some(y)) => optimized_expression(x, y, c, sc),
        (None, None) => true,
        _ => false,
    }
}

pub open spec fn optimized_expressions(
    a: Seq<PengPositionedExpression>,
    b: Seq<PengPositionedExpression>,
    c: PengOptimizerConfig,
    sc: Seq<Map<Seq<char>, PengConstantPropagationEntry>>,
) -> bool
    decreases a, 0nat,
{
    a.len() == b.len() && forall|i: int| 0 <= i < a.len() ==> optimized_expression(#[trigger] a[i], b[i], c, sc)
}

pub open spec fn optimized_arguments(
    a: Seq<PengPositionedFunctionCallArg>,
    b: Seq<PengPositionedFunctionCallArg>,
    c: PengOptimizerConfig,
    sc: Seq<Map<Seq<char>, PengConstantPropagationEntry>>,
) -> bool
    decreases a, 0nat,
{
    a.len() == b.len() && forall|i: int|
        0 <= i < a.len() ==> (#[trigger] a[i]).position == b[i].position && a[i].value.variadic
            == b[i].value.variadic && optimized_expression(a[i].value.expression, b[i].value.expression, c, sc)
}

pub open spec fn optimized_fields(
    a: Seq<PengObjectFieldLiteral>,
    b: Seq<PengObjectFieldLiteral>,
    c: PengOptimizerConfig,
    sc: Seq<Map<Seq<char>, PengConstantPropagationEntry>>,
) -> bool
    decreases a, 0nat,
{
    a.len() == b.len() && forall|i: int|
        0 <= i < a.len() ==> (#[trigger] a[i]).name == b[i].name && optimized_expression(a[i].value, b[i].value, c, sc)
}

/// Function, operation and module literals are optimized in a fresh scope; the parts of
/// vectors, objects and types in the scope where they stand; other literals stay.
pub open spec fn optimized_literal(
    a: PengPositionedLiteral,
    b: PengPositionedLiteral,
    c: PengOptimizerConfig,
    sc: Seq<Map<Seq<char>, PengConstantPropagationEntry>>,
) -> bool
    decreases a, 1nat,
{
    a.position == b.position && match (a.value, b.value) {
        (PengLiteral::Vector(x), PengLiteral::Vector(y)) => optimized_expressions(x@, y@, c, sc),
        (PengLiteral::Object(x), PengLiteral::Object(y)) => optimized_fields(x@, y@, c, sc),
        (PengLiteral::Function(f), PengLiteral::Function(g)) => f.params == g.params && f.return_type
            == g.return_type && optimized_statements(f.body@, g.body@, c, fresh_scope()),
        (PengLiteral::Module(m), PengLiteral::Module(n)) => optimized_declarations(m.body@, n.body@, c, fresh_scope()),
        (PengLiteral::Operation(f), PengLiteral::Operation(g)) => f.params == g.params && f.return_type
            == g.return_type && optimized_statements(f.body@, g.body@, c, fresh_scope()),
        (PengLiteral::Type(t), PengLiteral::Type(u)) => t.supers == u.supers && optimized_variables(
            t.fields@,
            u.fields@,
            c,
            sc,
        ) && optimized_functions(t.functions@, u.functions@, c),
        (PengLiteral::Vector(_), _) => false,
        (PengLiteral::Object(_), _) => false,
        (PengLiteral::Function(_), _) => false,
        (PengLiteral::Module(_), _) => false,
        (PengLiteral::Operation(_), _) => false,
        (PengLiteral::Type(_), _) => false,
        (x, y) => x == y,
    }
}

pub open spec fn optimized_variables(
    a: Seq<PengBinded<PengPositionedVariableDeclaration>>,
    b: Seq<PengBinded<PengPositionedVariableDeclaration>>,
    c: PengOptimizerConfig,
    sc: Seq<Map<Seq<char>, PengConstantPropagationEntry>>,
) -> bool
    decreases a, 0nat,
{
    a.len() == b.len() && forall|i: int|
        0 <= i < a.len() ==> ((#[trigger] a[i]) is Mutable) == (b[i] is Mutable) && a[i].bound().position
            == b[i].bound().position && a[i].bound().value.name == b[i].bound().value.name
            && a[i].bound().value.type_hint == b[i].bound().value.type_hint && optimized_optional_expression(
            a[i].bound().value.value,
            b[i].bound().value.value,
            c,
            sc,
        )
}

pub open spec fn optimized_functions(
    a: Seq<PengBinded<PengPositionedFunctionDeclaration>>,
    b: Seq<PengBinded<PengPositionedFunctionDeclaration>>,
    c: PengOptimizerConfig,
) -> bool
    decreases a, 0nat,
{
    a.len() == b.len() && forall|i: int|
        0 <= i < a.len() ==> ((#[trigger] a[i]) is Mutable) == (b[i] is Mutable) && a[i].bound().position
            == b[i].bound().position && a[i].bound().value.name == b[i].bound().value.name
            && a[i].bound().value.params == b[i].bound().value.params && a[i].bound().value.return_type
            == b[i].bound().value.return_type && optimized_statements(
            a[i].bound().value.body@,
            b[i].bound().value.body@,
            c,
            fresh_scope(),
        )
}

/// `m` is what optimizing the first `m.len()` statements of `a` one after the other gives,
/// each in the scope the ones before it leave.
pub open spec fn optimized_run(
    a: Seq<PengPositionedStatement>,
    m: Seq<PengPositionedStatement>,
    c: PengOptimizerConfig,
    sc: Seq<Map<Seq<char>, PengConstantPropagationEntry>>,
) -> bool
    decreases a, 0nat,
{
    m.len() <= a.len() && forall|i: int|
        0 <= i < m.len() ==> optimized_statement(#[trigger] a[i], m[i], c, scope_after(m.take(i), c, sc))
}

/// The run stops early only after a statement that stops the flow, when dead code is
/// removed; and then no statement before it stops the flow.
pub open spec fn run_ends(a: Seq<PengPositionedStatement>, m: Seq<PengPositionedStatement>, c: PengOptimizerConfig) -> bool {
    &&& m.len() < a.len() ==> c.dead_code && m.len() > 0 && stops_flow(m.last())
    &&& c.dead_code ==> forall|i: int| 0 <= i < m.len() - 1 ==> !stops_flow(#[trigger] m[i])
}

/// The run with its empty blocks dropped, when those are removed.
pub open spec fn without_empty_blocks(m: Seq<PengPositionedStatement>, c: PengOptimizerConfig) -> Seq<
    PengPositionedStatement,
> {
    if c.empty_blocks {
        m.filter(not_empty_block())
    } else {
        m
    }
}

/// `b` is what optimizing the list of statements `a` gives, starting in the scope `sc`.
pub open spec fn optimized_statements(
    a: Seq<PengPositionedStatement>,
    b: Seq<PengPositionedStatement>,
    c: PengOptimizerConfig,
    sc: Seq<Map<Seq<char>, PengConstantPropagationEntry>>,
) -> bool
    decreases a, 1nat,
{
    exists|m: Seq<PengPositionedStatement>|
        optimized_run(a, m, c, sc) && #[trigger] run_ends(a, m, c) && b == without_empty_blocks(m, c)
}

/// An optional block: optimized as a block, and gone when it ends up empty and empty
/// blocks are removed.
pub open spec fn optimized_optional_block(
    a: Option<Vec<PengPositionedStatement>>,
    b: Option<Vec<PengPositionedStatement>>,
    c: PengOptimizerConfig,
    sc: Seq<Map<Seq<char>, PengConstantPropagationEntry>>,
) -> bool
    decreases a, 3nat,
{
    match (a, b) {
        (Some(x), Some(y)) => optimized_statements(x@, y@, c, block_scope(sc)) && !(c.empty_blocks && y@.len()
            == 0),
        (Some(x), None) => c.empty_blocks && optimized_statements(
            x@,
            Seq::<PengPositionedStatement>::empty(),
            c,
            block_scope(sc),
        ),
        (None, None) => true,
        _ => false,
    }
}

pub open spec fn optimized_boxed_statement(
    a: Option<Box<PengPositionedStatement>>,
    b: Option<Box<PengPositionedStatement>>,
    c: PengOptimizerConfig,
    sc: Seq<Map<Seq<char>, PengConstantPropagationEntry>>,
) -> bool
    decreases a, 3nat,
{
    match (a, b) {
        (Some(x), Some(y)) => optimized_statement(*x, *y, c, sc),
        (None, None) => true,
        _ => false,
    }
}

/// The scope the condition, increment and body of a `for` see: that of its own frame after
/// its initializer is recorded.
pub open spec fn for_scope(
    initializer: Option<Box<PengPositionedStatement>>,
    c: PengOptimizerConfig,
    sc: Seq<Map<Seq<char>, PengConstantPropagationEntry>>,
) -> Seq<Map<Seq<char>, PengConstantPropagationEntry>> {
    match initializer {
        Some(s) => if c.constant_propagation {
            statement_recorded(block_scope(sc), *s)
        } else {
            block_scope(sc)
        },
        None => block_scope(sc),
    }
}

pub open spec fn optimized_statement(
    a: PengPositionedStatement,
    b: PengPositionedStatement,
    c: PengOptimizerConfig,
    sc: Seq<Map<Seq<char>, PengConstantPropagationEntry>>,
) -> bool
    decreases a, 2nat,
{
    a.position == b.position && match (a.value, b.value) {
        (PengStatement::Block(x), PengStatement::Block(y)) => optimized_statements(x@, y@, c, block_scope(sc)),
        (PengStatement::Declaration(x), PengStatement::Declaration(y)) => optimized_binded_declaration(x, y, c, sc),
        (PengStatement::Return(x), PengStatement::Return(y)) => optimized_optional_expression(x, y, c, sc),
        (PengStatement::If(x), PengStatement::If(y)) => optimized_expression(x.condition, y.condition, c, sc)
            && optimized_statements(x.then_branch@, y.then_branch@, c, block_scope(sc)) && optimized_optional_block(
            x.else_branch,
            y.else_branch,
            c,
            sc,
        ),
        (PengStatement::Match(x), PengStatement::Match(y)) => optimized_expression(x.value, y.value, c, sc)
            && optimized_arms(x.arms@, y.arms@, c, sc) && optimized_optional_block(x.elsing, y.elsing, c, sc),
        (PengStatement::While(x), PengStatement::While(y)) => optimized_expression(x.condition, y.condition, c, sc)
            && optimized_statements(x.body@, y.body@, c, block_scope(sc)),
        (PengStatement::For(x), PengStatement::For(y)) => optimized_boxed_statement(
            x.initializer,
            y.initializer,
            c,
            block_scope(sc),
        ) && optimized_optional_expression(x.condition, y.condition, c, for_scope(y.initializer, c, sc))
            && optimized_boxed_statement(x.increment, y.increment, c, for_scope(y.initializer, c, sc))
            && optimized_statements(x.body@, y.body@, c, block_scope(for_scope(y.initializer, c, sc))),
        (PengStatement::Loop(x), PengStatement::Loop(y)) => optimized_statements(x@, y@, c, block_scope(sc)),
        (PengStatement::Assign(x), PengStatement::Assign(y)) => optimized_assignment(x, y, c, sc),
        (PengStatement::Expression(x), PengStatement::Expression(y)) => optimized_expression(x, y, c, sc),
        (PengStatement::Break, PengStatement::Break) => true,
        (PengStatement::Continue, PengStatement::Continue) => true,
        _ => false,
    }
}

pub open spec fn optimized_arms(
    a: Seq<PengMatchArm>,
    b: Seq<PengMatchArm>,
    c: PengOptimizerConfig,
    sc: Seq<Map<Seq<char>, PengConstantPropagationEntry>>,
) -> bool
    decreases a, 0nat,
{
    a.len() == b.len() && forall|i: int|
        0 <= i < a.len() ==> optimized_expression((#[trigger] a[i]).pattern, b[i].pattern, c, sc)
            && optimized_statements(a[i].body@, b[i].body@, c, block_scope(sc))
}

/// The place an assignment writes to: its root name stays, the expressions inside it are
/// optimized.
pub open spec fn optimized_target(
    a: PengPositionedExpression,
    b: PengPositionedExpression,
    c: PengOptimizerConfig,
    sc: Seq<Map<Seq<char>, PengConstantPropagationEntry>>,
) -> bool
    decreases a, 2nat,
{
    match (a.value, b.value) {
        (PengExpression::AttributeAccess(x), PengExpression::AttributeAccess(y)) => a.position == b.position
            && x.name == y.name && optimized_expression(*x.object, *y.object, c, sc),
        (PengExpression::MemberAccess(x), PengExpression::MemberAccess(y)) => a.position == b.position && x.name
            == y.name && optimized_expression(*x.object, *y.object, c, sc),
        (PengExpression::Index(x), PengExpression::Index(y)) => a.position == b.position && optimized_expression(
            *x.object,
            *y.object,
            c,
            sc,
        ) && optimized_expression(*x.index, *y.index, c, sc),
        (PengExpression::AttributeAccess(_), _) => false,
        (PengExpression::MemberAccess(_), _) => false,
        (PengExpression::Index(_), _) => false,
        _ => a == b,
    }
}

pub open spec fn optimized_assignment(
    a: PengAssignStatement,
    b: PengAssignStatement,
    c: PengOptimizerConfig,
    sc: Seq<Map<Seq<char>, PengConstantPropagationEntry>>,
) -> bool
    decreases a, 3nat,
{
    match (a, b) {
        (PengAssignStatement::Assign { target: t1, value: v1 }, PengAssignStatement::Assign { target: t2, value: v2 }) =>
            optimized_target(t1, t2, c, sc) && optimized_expression(v1, v2, c, sc),
        (
            PengAssignStatement::AddAssign { target: t1, value: v1 },
            PengAssignStatement::AddAssign { target: t2, value: v2 },
        ) => optimized_target(t1, t2, c, sc) && optimized_expression(v1, v2, c, sc),
        (
            PengAssignStatement::SubtractAssign { target: t1, value: v1 },
            PengAssignStatement::SubtractAssign { target: t2, value: v2 },
        ) => optimized_target(t1, t2, c, sc) && optimized_expression(v1, v2, c, sc),
        (
            PengAssignStatement::MultiplyAssign { target: t1, value: v1 },
            PengAssignStatement::MultiplyAssign { target: t2, value: v2 },
        ) => optimized_target(t1, t2, c, sc) && optimized_expression(v1, v2, c, sc),
        (
            PengAssignStatement::DivideAssign { target: t1, value: v1 },
            PengAssignStatement::DivideAssign { target: t2, value: v2 },
        ) => optimized_target(t1, t2, c, sc) && optimized_expression(v1, v2, c, sc),
        (
            PengAssignStatement::PowerAssign { target: t1, value: v1 },
            PengAssignStatement::PowerAssign { target: t2, value: v2 },
        ) => optimized_target(t1, t2, c, sc) && optimized_expression(v1, v2, c, sc),
        (
            PengAssignStatement::RemainderAssign { target: t1, value: v1 },
            PengAssignStatement::RemainderAssign { target: t2, value: v2 },
        ) => optimized_target(t1, t2, c, sc) && optimized_expression(v1, v2, c, sc),
        _ => false,
    }
}

/// Functions, operations and modules are optimized in a fresh scope; variables, aliases
/// and the fields of types in the scope where they stand.
pub open spec fn optimized_declaration(
    a: PengDeclaration,
    b: PengDeclaration,
    c: PengOptimizerConfig,
    sc: Seq<Map<Seq<char>, PengConstantPropagationEntry>>,
) -> bool
    decreases a, 1nat,
{
    match (a, b) {
        (PengDeclaration::Var(x), PengDeclaration::Var(y)) => x.position == y.position && x.value.name
            == y.value.name && x.value.type_hint == y.value.type_hint && optimized_optional_expression(
            x.value.value,
            y.value.value,
            c,
            sc,
        ),
        (PengDeclaration::As(x), PengDeclaration::As(y)) => x.position == y.position && x.value.name
            == y.value.name && x.value.type_hint == y.value.type_hint && optimized_expression(
            x.value.value,
            y.value.value,
            c,
            sc,
        ),
        (PengDeclaration::Function(x), PengDeclaration::Function(y)) => x.position == y.position && x.value.name
            == y.value.name && x.value.params == y.value.params && x.value.return_type == y.value.return_type
            && optimized_statements(x.value.body@, y.value.body@, c, fresh_scope()),
        (PengDeclaration::Type(x), PengDeclaration::Type(y)) => x.position == y.position && x.value.name
            == y.value.name && x.value.value == y.value.value && x.value.supers == y.value.supers
            && optimized_variables(x.value.fields@, y.value.fields@, c, sc) && optimized_functions(
            x.value.functions@,
            y.value.functions@,
            c,
        ),
        (PengDeclaration::Module(x), PengDeclaration::Module(y)) => x.position == y.position && x.value.name
            == y.value.name && optimized_declarations(x.value.body@, y.value.body@, c, fresh_scope()),
        (PengDeclaration::Operation(x), PengDeclaration::Operation(y)) => x.position == y.position
            && x.value.name == y.value.name && x.value.params == y.value.params && x.value.return_type
            == y.value.return_type && optimized_statements(x.value.body@, y.value.body@, c, fresh_scope()),
        _ => false,
    }
}

pub open spec fn optimized_binded_declaration(
    a: PengBindedDeclaration,
    b: PengBindedDeclaration,
    c: PengOptimizerConfig,
    sc: Seq<Map<Seq<char>, PengConstantPropagationEntry>>,
) -> bool
    decreases a, 2nat,
{
    match (a, b) {
        (PengBinded::Mutable(x), PengBinded::Mutable(y)) => optimized_declaration(x, y, c, sc),
        (PengBinded::Immutable(x), PengBinded::Immutable(y)) => optimized_declaration(x, y, c, sc),
        _ => false,
    }
}

/// Declarations are optimized one after the other, each in the scope the ones before it
/// leave.
pub open spec fn optimized_declarations(
    a: Seq<PengBindedDeclaration>,
    b: Seq<PengBindedDeclaration>,
    c: PengOptimizerConfig,
    sc: Seq<Map<Seq<char>, PengConstantPropagationEntry>>,
) -> bool
    decreases a, 0nat,
{
    a.len() == b.len() && forall|i: int|
        0 <= i < a.len() ==> optimized_binded_declaration(
            #[trigger] a[i],
            b[i],
            c,
            scope_after_declarations(b.take(i), c, sc),
        )
}

/// What optimizing a whole source gives: its declarations or statements optimized from a
/// fresh scope.
pub open spec fn optimized_ast(a: PengAST, b: PengAST, c: PengOptimizerConfig) -> bool {
    match (a, b) {
        (PengAST::Program(x), PengAST::Program(y)) => optimized_declarations(x@, y@, c, fresh_scope()),
        (PengAST::Script(x), PengAST::Script(y)) => optimized_statements(x@, y@, c, fresh_scope()),
        _ => false,
    }
}

} // verus!
