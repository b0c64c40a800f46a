use vstd::prelude::*;
use vstd::string::StringExecFns;
use crate::binding::PengBinded;
use crate::call::PengCell;
use crate::error::PengError;
use crate::generator::generator_utils::{
    const_index, const_pooled, local_lookup, patched, retarget, PengGeneratorContext,
};
use crate::instruction::PengInstruction;
use crate::call::PengCallStack;
use crate::numeric::{numeric_result, signed_cell, PengNumericOperation, PengNumericResult};
use crate::optimizer::constant_folding::{fold_binary_spec, is_arith, is_comparison};
use crate::runtime::{comparison_of, jumped, logic_effect, numeric_operation, stack_instruction_effect, PengStackStep};
use crate::names::{pooled, pooled_ptr, PengNamePool};
use crate::parser::ast::{
    PengBinaryOperator, PengExpression, PengLiteral, PengObjectFieldLiteral, PengPositionedExpression,
    PengPositionedFunctionCallArg,
    PengPositionedLiteral,
    PengPositionedTypeExpression, PengTypeExpression, PengUnaryOperator,
};
use crate::position::PengPosition;
use crate::typing::PengType;
use crate::utils::{PengHeapPtr, PengNamePoolPtr};

verus! {

/// The runtime type a type expression names, when it can be known without running
/// anything: a built-in type, a vector of such, or `type` for a type literal. A custom
/// type or a union of types is only known at run time.
pub open spec fn static_type(t: PengPositionedTypeExpression) -> Option<PengType>
    decreases t,
{
    match t.value {
        PengTypeExpression::Nil => Some(PengType::Nil),
        PengTypeExpression::Int => Some(PengType::Int),
        PengTypeExpression::Uint => Some(PengType::Uint),
        PengTypeExpression::Float32 => Some(PengType::Float32),
        PengTypeExpression::Float64 => Some(PengType::Float64),
        PengTypeExpression::Byte => Some(PengType::Byte),
        PengTypeExpression::Bool => Some(PengType::Bool),
        PengTypeExpression::String => Some(PengType::String),
        PengTypeExpression::Object => Some(PengType::Object),
        PengTypeExpression::Type => Some(PengType::Type),
        PengTypeExpression::Module => Some(PengType::Module),
        PengTypeExpression::Function => Some(PengType::Function),
        PengTypeExpression::Operation => Some(PengType::Operator),
        PengTypeExpression::Thread => Some(PengType::Thread),
        PengTypeExpression::Any => Some(PengType::Any),
        PengTypeExpression::UnionType => Some(PengType::Union),
        PengTypeExpression::Vector(inner) => match static_type(*inner) {
            Some(t) => Some(PengType::Vector(Box::new(t))),
            None => None,
        },
        PengTypeExpression::TypeLiteral(_) => Some(PengType::Type),
        PengTypeExpression::Custom(_) => None,
        PengTypeExpression::Union(_) => None,
    }
}

pub fn static_type_from_expression(type_expression: &PengPositionedTypeExpression) -> (res: Option<PengType>)
    ensures
        res == static_type(*type_expression),
    decreases type_expression,
{
    match &type_expression.value {
        PengTypeExpression::Nil => Some(PengType::Nil),
        PengTypeExpression::Int => Some(PengType::Int),
        PengTypeExpression::Uint => Some(PengType::Uint),
        PengTypeExpression::Float32 => Some(PengType::Float32),
        PengTypeExpression::Float64 => Some(PengType::Float64),
        PengTypeExpression::Byte => Some(PengType::Byte),
        PengTypeExpression::Bool => Some(PengType::Bool),
        PengTypeExpression::String => Some(PengType::String),
        PengTypeExpression::Object => Some(PengType::Object),
        PengTypeExpression::Type => Some(PengType::Type),
        PengTypeExpression::Module => Some(PengType::Module),
        PengTypeExpression::Function => Some(PengType::Function),
        PengTypeExpression::Operation => Some(PengType::Operator),
        PengTypeExpression::Thread => Some(PengType::Thread),
        PengTypeExpression::Any => Some(PengType::Any),
        PengTypeExpression::UnionType => Some(PengType::Union),
        PengTypeExpression::Vector(inner) => match static_type_from_expression(inner) {
            Some(inner_type) => Some(PengType::Vector(Box::new(inner_type))),
            None => None,
        },
        PengTypeExpression::TypeLiteral(_) => Some(PengType::Type),
        PengTypeExpression::Custom(_) => None,
        PengTypeExpression::Union(_) => None,
    }
}


/// What generating code works on and grows: the code with where each instruction came
/// from, the name pool and the constants.
pub struct PengGenState {
    pub code: Seq<PengInstruction>,
    pub positions: Seq<PengPosition>,
    pub names: Seq<Seq<char>>,
    pub consts: Seq<PengCell>,
    pub locals: int,
}

/// The state with one more instruction.
pub open spec fn emit(st: PengGenState, i: PengInstruction, p: PengPosition) -> PengGenState {
    PengGenState { code: st.code.push(i), positions: st.positions.push(p), ..st }
}

/// The state once `name` is in the name pool.
pub open spec fn with_name(st: PengGenState, name: Seq<char>) -> PengGenState {
    PengGenState { names: pooled(st.names, name), ..st }
}

/// What a global name is bound to: the code's own globals first, then those it uses.
pub open spec fn global_of(
    own: Map<PengNamePoolPtr, PengBinded<PengHeapPtr>>,
    used: Map<PengNamePoolPtr, PengBinded<PengHeapPtr>>,
    p: PengNamePoolPtr,
) -> Option<PengBinded<PengHeapPtr>> {
    if own.contains_key(p) {
        Some(own[p])
    } else if used.contains_key(p) {
        Some(used[p])
    } else {
        None
    }
}

/// The instruction of a binary operator that evaluates both sides.
pub open spec fn binary_instruction(op: PengBinaryOperator) -> PengInstruction {
    match op {
        PengBinaryOperator::Add => PengInstruction::Add,
        PengBinaryOperator::Subtract => PengInstruction::Subtract,
        PengBinaryOperator::Multiply => PengInstruction::Multiply,
        PengBinaryOperator::Divide => PengInstruction::Divide,
        PengBinaryOperator::Power => PengInstruction::Power,
        PengBinaryOperator::Remainder => PengInstruction::Remainder,
        PengBinaryOperator::Concat => PengInstruction::Concat,
        PengBinaryOperator::NonShortCircuitAnd => PengInstruction::And,
        PengBinaryOperator::NonShortCircuitOr => PengInstruction::Or,
        PengBinaryOperator::Equals => PengInstruction::Equals,
        PengBinaryOperator::NotEquals => PengInstruction::NotEquals,
        PengBinaryOperator::GreaterThan => PengInstruction::GreaterThan,
        PengBinaryOperator::GreaterEqualsThan => PengInstruction::GreaterEqualsThan,
        PengBinaryOperator::LessThan => PengInstruction::LessThan,
        PengBinaryOperator::LessEqualsThan => PengInstruction::LessEqualsThan,
        _ => PengInstruction::Convert,
    }
}

/// The code of a literal that holds no expression: a plain value is pushed as a constant
/// (an equal one is reused), a string by its pooled name; the others are not generated
/// here.
pub open spec fn literal_code(l: PengPositionedLiteral, st: PengGenState) -> Option<PengGenState> {
    let cell = match l.value {
        PengLiteral::Nil => Some(PengCell::Nil),
        PengLiteral::Int(v) => Some(PengCell::Int(v)),
        PengLiteral::Uint(v) => Some(PengCell::Uint(v)),
        PengLiteral::Byte(v) => Some(PengCell::Byte(v)),
        PengLiteral::Bool(v) => Some(PengCell::Bool(v)),
        _ => None,
    };
    match cell {
        Some(c) => Some(
            emit(
                PengGenState { consts: const_pooled(st.consts, c), ..st },
                PengInstruction::PushConst(const_index(st.consts, c)),
                l.position,
            ),
        ),
        None => match l.value {
            PengLiteral::String(s) => Some(
                emit(
                    with_name(st, s@),
                    PengInstruction::PushString(PengNamePoolPtr(pooled_ptr(st.names, s@))),
                    l.position,
                ),
            ),
            _ => None,
        },
    }
}

/// The code that evaluates `e` after `st`, or `None` where it cannot be generated: a
/// name bound nowhere, an unpacked argument that is not the last, `try` on what is no
/// call, or a form not generated here (type expressions; function, operation, module and
/// type literals; floating-point literals). A name is read from its local in the
/// innermost scope that binds it, else from its global (made immutable on the stack when
/// it is bound so); `&&` and `||` jump past their right side when the left decides;
/// vectors and objects are built from their items and fields in order.
pub open spec fn expression_code(
    e: PengPositionedExpression,
    st: PengGenState,
    scopes: Seq<Map<Seq<char>, usize>>,
    own: Map<PengNamePoolPtr, PengBinded<PengHeapPtr>>,
    used: Map<PengNamePoolPtr, PengBinded<PengHeapPtr>>,
) -> Option<PengGenState>
    decreases e, 3nat,
{
    match e.value {
        PengExpression::Literal(l) => match l.value {
            PengLiteral::Vector(values) => match exprs_code(values@, st, scopes, own, used) {
                Some(s1) => Some(emit(s1, PengInstruction::CreateVector(values@.len() as usize), l.position)),
                None => None,
            },
            PengLiteral::Object(fields) => fields_code(
                fields@,
                emit(st, PengInstruction::CreateEmptyObject, l.position),
                scopes,
                own,
                used,
            ),
            _ => literal_code(l, st),
        },
        PengExpression::ObjectConstruction(c) => match expression_code(*c.object_type, st, scopes, own, used) {
            Some(s1) => fields_code(c.fields@, emit(s1, PengInstruction::CreateTypedObject, e.position), scopes, own, used),
            None => None,
        },
        PengExpression::Identifier(id) => match local_lookup(scopes, id.value@) {
            Some(k) => Some(emit(st, PengInstruction::PushLocal(k), id.position)),
            None => {
                let p = PengNamePoolPtr(pooled_ptr(st.names, id.value@));
                let st1 = with_name(st, id.value@);
                match global_of(own, used, p) {
                    Some(b) => {
                        let st2 = emit(st1, PengInstruction::PushHeap(b.bound()), id.position);
                        if b is Immutable {
                            Some(emit(st2, PengInstruction::MakeImmutable, id.position))
                        } else {
                            Some(st2)
                        }
                    },
                    None => None,
                }
            },
        },
        PengExpression::Unary { operator, value } => match expression_code(*value, st, scopes, own, used) {
            Some(s1) => Some(
                emit(
                    s1,
                    if operator == PengUnaryOperator::Negate {
                        PengInstruction::Negate
                    } else {
                        PengInstruction::Not
                    },
                    e.position,
                ),
            ),
            None => None,
        },
        PengExpression::Binary { left, operator, right } => match expression_code(*left, st, scopes, own, used) {
            None => None,
            Some(s1) => if operator == PengBinaryOperator::ShortCircuitAnd || operator
                == PengBinaryOperator::ShortCircuitOr {
                let jump = if operator == PengBinaryOperator::ShortCircuitAnd {
                    PengInstruction::JumpIfFalse(usize::MAX)
                } else {
                    PengInstruction::JumpIfTrue(usize::MAX)
                };
                let s2 = emit(
                    emit(emit(s1, PengInstruction::Duplicate, e.position), jump, e.position),
                    PengInstruction::Pop,
                    e.position,
                );
                match expression_code(*right, s2, scopes, own, used) {
                    Some(s3) => Some(
                        PengGenState {
                            code: patched(s3.code, (s1.code.len() + 1) as usize, s3.code.len() as usize),
                            ..s3
                        },
                    ),
                    None => None,
                }
            } else {
                match expression_code(*right, s1, scopes, own, used) {
                    Some(s2) => Some(emit(s2, binary_instruction(operator), e.position)),
                    None => None,
                }
            },
        },
        PengExpression::AttributeAccess(a) => match expression_code(*a.object, st, scopes, own, used) {
            Some(s1) => Some(
                emit(
                    with_name(s1, a.name.value@),
                    PengInstruction::GetConstAttribute(PengNamePoolPtr(pooled_ptr(s1.names, a.name.value@))),
                    e.position,
                ),
            ),
            None => None,
        },
        PengExpression::MemberAccess(a) => match expression_code(*a.object, st, scopes, own, used) {
            Some(s1) => Some(
                emit(
                    with_name(s1, a.name.value@),
                    PengInstruction::GetConstMember(PengNamePoolPtr(pooled_ptr(s1.names, a.name.value@))),
                    e.position,
                ),
            ),
            None => None,
        },
        PengExpression::Index(ix) => match expression_code(*ix.object, st, scopes, own, used) {
            Some(s1) => match expression_code(*ix.index, s1, scopes, own, used) {
                Some(s2) => Some(emit(s2, PengInstruction::GetIndex, e.position)),
                None => None,
            },
            None => None,
        },
        PengExpression::FuncCall(c) => match expression_code(*c.function, st, scopes, own, used) {
            Some(s1) => if spread_ok(c.args@) {
                match args_code(c.args@, s1, scopes, own, used) {
                    Some(s2) => Some(emit(s2, call_instruction(c.args@, false, 0), e.position)),
                    None => None,
                }
            } else {
                None
            },
            None => None,
        },
        PengExpression::MethodCall(c) => match method_prefix(e, st, scopes, own, used, e.position) {
            Some(s1) => match args_code(c.args@, s1, scopes, own, used) {
                Some(s2) => Some(emit(s2, PengInstruction::FunctionCall((c.args@.len() + 1) as usize), e.position)),
                None => None,
            },
            None => None,
        },
        PengExpression::OperationCall { .. } => match operation_operands(e, st, scopes, own, used) {
            Some(s1) => Some(emit(s1, PengInstruction::OperationCall, e.position)),
            None => None,
        },
        PengExpression::Try { value, elsing } => match try_call_code(*value, st, scopes, own, used, e.position) {
            Some(s1) => {
                let j = s1.code.len();
                let s2 = emit(emit(s1, PengInstruction::JumpIfTrue(usize::MAX), e.position), PengInstruction::Pop, e.position);
                let s3 = match elsing {
                    Some(x) => expression_code(*x, s2, scopes, own, used),
                    None => Some(
                        emit(
                            PengGenState { consts: const_pooled(s2.consts, PengCell::Nil), ..s2 },
                            PengInstruction::PushConst(const_index(s2.consts, PengCell::Nil)),
                            e.position,
                        ),
                    ),
                };
                match s3 {
                    Some(s4) => Some(PengGenState { code: patched(s4.code, j as usize, s4.code.len() as usize), ..s4 }),
                    None => None,
                }
            },
            None => None,
        },
        _ => None,
    }
}

/// The code of call arguments, in order.
pub open spec fn args_code(
    args: Seq<PengPositionedFunctionCallArg>,
    st: PengGenState,
    scopes: Seq<Map<Seq<char>, usize>>,
    own: Map<PengNamePoolPtr, PengBinded<PengHeapPtr>>,
    used: Map<PengNamePoolPtr, PengBinded<PengHeapPtr>>,
) -> Option<PengGenState>
    decreases args, 0nat,
{
    if args.len() == 0 {
        Some(st)
    } else {
        match args_code(args.drop_last(), st, scopes, own, used) {
            Some(s1) => expression_code(args.last().value.expression, s1, scopes, own, used),
            None => None,
        }
    }
}

/// The code of expressions, in order.
pub open spec fn exprs_code(
    values: Seq<PengPositionedExpression>,
    st: PengGenState,
    scopes: Seq<Map<Seq<char>, usize>>,
    own: Map<PengNamePoolPtr, PengBinded<PengHeapPtr>>,
    used: Map<PengNamePoolPtr, PengBinded<PengHeapPtr>>,
) -> Option<PengGenState>
    decreases values, 0nat,
{
    if values.len() == 0 {
        Some(st)
    } else {
        match exprs_code(values.drop_last(), st, scopes, own, used) {
            Some(s1) => expression_code(values.last(), s1, scopes, own, used),
            None => None,
        }
    }
}

/// The code that sets fields, in order, on the object on top of the stack: each field
/// copies the object, pools its name, evaluates its value and sets it.
pub open spec fn fields_code(
    fields: Seq<PengObjectFieldLiteral>,
    st: PengGenState,
    scopes: Seq<Map<Seq<char>, usize>>,
    own: Map<PengNamePoolPtr, PengBinded<PengHeapPtr>>,
    used: Map<PengNamePoolPtr, PengBinded<PengHeapPtr>>,
) -> Option<PengGenState>
    decreases fields, 0nat,
{
    if fields.len() == 0 {
        Some(st)
    } else {
        match fields_code(fields.drop_last(), st, scopes, own, used) {
            Some(s1) => {
                let f = fields.last();
                let s2 = emit(s1, PengInstruction::Duplicate, f.name.position);
                let p = PengNamePoolPtr(pooled_ptr(s2.names, f.name.value@));
                match expression_code(f.value, with_name(s2, f.name.value@), scopes, own, used) {
                    Some(s3) => Some(emit(s3, PengInstruction::SetConstAttribute(p), f.name.position)),
                    None => None,
                }
            },
            None => None,
        }
    }
}

/// Only the last argument may be unpacked.
pub open spec fn spread_ok(args: Seq<PengPositionedFunctionCallArg>) -> bool {
    forall|i: int| 0 <= i < args.len() - 1 ==> !(#[trigger] args[i]).value.variadic
}

/// The call instruction for `args`: one that unpacks its last argument when it is marked
/// so; `extra` more values (the receiver of a method) come before the arguments.
pub open spec fn call_instruction(args: Seq<PengPositionedFunctionCallArg>, is_try: bool, extra: nat) -> PengInstruction {
    let spread = args.len() > 0 && args.last().value.variadic;
    if spread {
        let at = (args.len() - 1 + extra) as usize;
        if is_try {
            PengInstruction::TryFunctionCallSpread(at)
        } else {
            PengInstruction::FunctionCallSpread(at)
        }
    } else {
        let n = (args.len() + extra) as usize;
        if is_try {
            PengInstruction::TryFunctionCall(n)
        } else {
            PengInstruction::FunctionCall(n)
        }
    }
}

/// The code before a method's arguments, for the call itself.
pub open spec fn method_code(
    c: crate::parser::ast::PengMethodCallExpression,
    st: PengGenState,
    scopes: Seq<Map<Seq<char>, usize>>,
    own: Map<PengNamePoolPtr, PengBinded<PengHeapPtr>>,
    used: Map<PengNamePoolPtr, PengBinded<PengHeapPtr>>,
    pos: PengPosition,
) -> Option<PengGenState>
    decreases c, 0nat,
{
    let method = c.method.value@;
    let local = st.locals as usize;
    let s0 = emit(PengGenState { locals: st.locals + 1, ..st }, PengInstruction::ReserveLocal(local), pos);
    match expression_code(*c.object, s0, scopes, own, used) {
        Some(s1) => {
            let s2 = emit(s1, PengInstruction::StoreLocal(local), pos);
            let p = PengNamePoolPtr(pooled_ptr(s2.names, method));
            let s3 = emit(with_name(s2, method), PengInstruction::PushLocal(local), pos);
            Some(emit(emit(s3, PengInstruction::GetConstAttribute(p), pos), PengInstruction::PushLocal(local), pos))
        },
        None => None,
    }
}

/// The code before a method's arguments: a new temporary local is reserved, the object is
/// stored in it, then the method and the object are pushed.
pub open spec fn method_prefix(
    call: PengPositionedExpression,
    st: PengGenState,
    scopes: Seq<Map<Seq<char>, usize>>,
    own: Map<PengNamePoolPtr, PengBinded<PengHeapPtr>>,
    used: Map<PengNamePoolPtr, PengBinded<PengHeapPtr>>,
    pos: PengPosition,
) -> Option<PengGenState>
    decreases call, 1nat,
{
    match call.value {
        PengExpression::MethodCall(c) => method_code(c, st, scopes, own, used, pos),
        _ => None,
    }
}

/// The operation, then its left and right operands.
pub open spec fn operation_operands(
    call: PengPositionedExpression,
    st: PengGenState,
    scopes: Seq<Map<Seq<char>, usize>>,
    own: Map<PengNamePoolPtr, PengBinded<PengHeapPtr>>,
    used: Map<PengNamePoolPtr, PengBinded<PengHeapPtr>>,
) -> Option<PengGenState>
    decreases call, 1nat,
{
    match call.value {
        PengExpression::OperationCall { left, operation, right } => match expression_code(*operation, st, scopes, own, used) {
            Some(s1) => match expression_code(*left, s1, scopes, own, used) {
                Some(s2) => expression_code(*right, s2, scopes, own, used),
                None => None,
            },
            None => None,
        },
        _ => None,
    }
}

/// The call a `try` guards: a function call, a method call or an operation call, made so
/// that it leaves its result and whether it succeeded.
pub open spec fn try_call_code(
    value: PengPositionedExpression,
    st: PengGenState,
    scopes: Seq<Map<Seq<char>, usize>>,
    own: Map<PengNamePoolPtr, PengBinded<PengHeapPtr>>,
    used: Map<PengNamePoolPtr, PengBinded<PengHeapPtr>>,
    pos: PengPosition,
) -> Option<PengGenState>
    decreases value, 2nat,
{
    match value.value {
        PengExpression::FuncCall(c) => match expression_code(*c.function, st, scopes, own, used) {
            Some(s1) => if spread_ok(c.args@) {
                match args_code(c.args@, s1, scopes, own, used) {
                    Some(s2) => Some(emit(s2, call_instruction(c.args@, true, 0), pos)),
                    None => None,
                }
            } else {
                None
            },
            None => None,
        },
        PengExpression::MethodCall(c) => match method_prefix(value, st, scopes, own, used, pos) {
            Some(s1) => if spread_ok(c.args@) {
                match args_code(c.args@, s1, scopes, own, used) {
                    Some(s2) => Some(emit(s2, call_instruction(c.args@, true, 1), pos)),
                    None => None,
                }
            } else {
                None
            },
            None => None,
        },
        PengExpression::OperationCall { .. } => match operation_operands(value, st, scopes, own, used) {
            Some(s1) => Some(emit(s1, PengInstruction::TryOperationCall, pos)),
            None => None,
        },
        _ => None,
    }
}

/// How many nodes an expression has.
pub open spec fn expression_size(e: PengPositionedExpression) -> nat
    decreases e, 1nat,
{
    match e.value {
        PengExpression::Unary { value, .. } => 1 + expression_size(*value),
        PengExpression::Binary { left, right, .. } => 1 + expression_size(*left) + expression_size(*right),
        PengExpression::AttributeAccess(a) => 1 + expression_size(*a.object),
        PengExpression::MemberAccess(a) => 1 + expression_size(*a.object),
        PengExpression::Index(ix) => 1 + expression_size(*ix.object) + expression_size(*ix.index),
        PengExpression::FuncCall(c) => 1 + expression_size(*c.function) + args_size(c.args@),
        PengExpression::MethodCall(c) => 2 + expression_size(*c.object) + args_size(c.args@),
        PengExpression::OperationCall { left, operation, right } => 1 + expression_size(*left) + expression_size(
            *operation,
        ) + expression_size(*right),
        PengExpression::Try { value, elsing } => 2 + expression_size(*value) + match elsing {
            Some(x) => expression_size(*x),
            None => 0,
        },
        PengExpression::Literal(l) => match l.value {
            PengLiteral::Vector(values) => 1 + exprs_size(values@),
            PengLiteral::Object(fields) => 1 + fields_size(fields@),
            _ => 1,
        },
        PengExpression::ObjectConstruction(c) => 1 + expression_size(*c.object_type) + fields_size(c.fields@),
        _ => 1,
    }
}

/// How many nodes the expressions have.
pub open spec fn exprs_size(values: Seq<PengPositionedExpression>) -> nat
    decreases values, 0nat,
{
    if values.len() == 0 {
        0
    } else {
        exprs_size(values.drop_last()) + expression_size(values.last())
    }
}

/// How many nodes the fields have, a name counting as one.
pub open spec fn fields_size(fields: Seq<PengObjectFieldLiteral>) -> nat
    decreases fields, 0nat,
{
    if fields.len() == 0 {
        0
    } else {
        fields_size(fields.drop_last()) + 1 + expression_size(fields.last().value)
    }
}

/// How many nodes the arguments' expressions have.
pub open spec fn args_size(args: Seq<PengPositionedFunctionCallArg>) -> nat
    decreases args, 0nat,
{
    if args.len() == 0 {
        0
    } else {
        args_size(args.drop_last()) + expression_size(args.last().value.expression)
    }
}


/// The generation state a name pool and a context hold.
pub open spec fn gen_state(names: PengNamePool, context: PengGeneratorContext) -> PengGenState {
    PengGenState {
        code: context.code(),
        positions: context.code_positions(),
        names: names@,
        consts: context.const_pool(),
        locals: context.locals_count() as int,
    }
}

fn generating_failed(e: PengError) -> (res: PengError) {
    e.push(PengError::InvalidState(String::from_str("failed while generating generate_expression")))
}

/// The context keeps what generating code does not change: it stays well formed, with
/// the same scopes, globals and loops.
pub open spec fn gen_kept(a: PengGeneratorContext, b: PengGeneratorContext) -> bool {
    &&& b.wf()
    &&& b.local_scopes() == a.local_scopes()
    &&& b.own_globals() == a.own_globals()
    &&& b.used_globals() == a.used_globals()
    &&& b.open_loops() == a.open_loops()
}

/// Room for `size` more names, constants and locals.
pub open spec fn gen_room(names: PengNamePool, context: PengGeneratorContext, size: nat) -> bool {
    &&& names@.len() + size < usize::MAX
    &&& context.const_pool().len() + size < usize::MAX
    &&& context.locals_count() + size < usize::MAX
}

/// At most `size` more names, constants and locals were taken.
pub open spec fn gen_grew(
    n0: PengNamePool,
    c0: PengGeneratorContext,
    n1: PengNamePool,
    c1: PengGeneratorContext,
    size: nat,
) -> bool {
    &&& n0@.len() <= n1@.len() <= n0@.len() + size
    &&& c0.const_pool().len() <= c1.const_pool().len() <= c0.const_pool().len() + size
    &&& c0.locals_count() <= c1.locals_count() <= c0.locals_count() + size
}

/// What generating gives, against what the specification says.
pub open spec fn gen_result(
    expected: Option<PengGenState>,
    names: PengNamePool,
    context: PengGeneratorContext,
    res: Result<(), PengError>,
) -> bool {
    match expected {
        Some(st) => res is Ok && gen_state(names, context) == st,
        None => res is Err,
    }
}

/// Generating `e` from `n0` and `c0` left `n1` and `c1` and gave `res`, as
/// `expression_code` says.
pub open spec fn gen_done(
    n0: PengNamePool,
    c0: PengGeneratorContext,
    n1: PengNamePool,
    c1: PengGeneratorContext,
    e: PengPositionedExpression,
    res: Result<(), PengError>,
) -> bool {
    &&& gen_kept(c0, c1)
    &&& gen_grew(n0, c0, n1, c1, expression_size(e))
    &&& gen_result(
        expression_code(e, gen_state(n0, c0), c0.local_scopes(), c0.own_globals(), c0.used_globals()),
        n1,
        c1,
        res,
    )
}

proof fn lemma_expression_size_pos(e: PengPositionedExpression)
    ensures
        expression_size(e) >= 1,
{
}

proof fn lemma_args_size_len(args: Seq<PengPositionedFunctionCallArg>)
    ensures
        args_size(args) >= args.len(),
    decreases args.len(),
{
    if args.len() > 0 {
        lemma_args_size_len(args.drop_last());
        lemma_expression_size_pos(args.last().value.expression);
    }
}

/// Appends the code that evaluates `expression` (see `expression_code`). It fails exactly
/// where `expression_code` gives nothing.
pub fn generate_expression(
    names: &mut PengNamePool,
    context: &mut PengGeneratorContext,
    expression: &PengPositionedExpression,
) -> (res: Result<(), PengError>)
    requires
        old(context).wf(),
        gen_room(*old(names), *old(context), expression_size(*expression)),
    ensures
        gen_kept(*old(context), *final(context)),
        gen_grew(*old(names), *old(context), *final(names), *final(context), expression_size(*expression)),
        gen_result(
            expression_code(
                *expression,
                gen_state(*old(names), *old(context)),
                old(context).local_scopes(),
                old(context).own_globals(),
                old(context).used_globals(),
            ),
            *final(names),
            *final(context),
            res,
        ),
    decreases expression, 3nat,
{
    match &expression.value {
        PengExpression::Literal(_) => generate_literal_expression(names, context, expression),
        PengExpression::Identifier(_) => generate_identifier_expression(names, context, expression),
        PengExpression::Unary { .. } => generate_unary_expression(names, context, expression),
        PengExpression::Binary { .. } => generate_binary_expression(names, context, expression),
        PengExpression::AttributeAccess(_) | PengExpression::MemberAccess(_) => generate_access_expression(
            names,
            context,
            expression,
        ),
        PengExpression::Index(_) => generate_index_expression(names, context, expression),
        PengExpression::FuncCall(call) => {
            proof {
                lemma_expression_size_pos(*call.function);
            }
            generate_function_call(names, context, call, expression.position)
        },
        PengExpression::MethodCall(call) => {
            proof {
                let st = gen_state(*names, *context);
                assert(method_prefix(*expression, st, context.local_scopes(), context.own_globals(), context.used_globals(), expression.position)
                    == method_code(*call, st, context.local_scopes(), context.own_globals(), context.used_globals(), expression.position));
            }
            generate_method_call(names, context, call, expression.position)
        },
        PengExpression::OperationCall { .. } => generate_operation_call(names, context, expression),
        PengExpression::Try { .. } => generate_try_expression(names, context, expression),
        PengExpression::ObjectConstruction(_) => generate_object_construction(names, context, expression),
        _ => Err(PengError::InvalidState(String::from_str("expression not generated here"))),
    }
}

fn generate_literal_expression(
    names: &mut PengNamePool,
    context: &mut PengGeneratorContext,
    expression: &PengPositionedExpression,
) -> (res: Result<(), PengError>)
    requires
        old(context).wf(),
        gen_room(*old(names), *old(context), expression_size(*expression)),
        expression.value is Literal,
    ensures
        gen_done(*old(names), *old(context), *final(names), *final(context), *expression, res),
    decreases expression, 2nat,
{
    let literal = match &expression.value {
        PengExpression::Literal(literal) => literal,
        _ => return Err(PengError::InvalidState(String::from_str("expected literal"))),
    };
    match &literal.value {
        PengLiteral::Vector(values) => {
            match generate_exprs(names, context, values) {
                Ok(()) => {},
                Err(e) => return Err(e),
            }
            context.push_positioned_instruction(PengInstruction::CreateVector(values.len()), literal.position);
            return Ok(());
        },
        PengLiteral::Object(fields) => {
            context.push_positioned_instruction(PengInstruction::CreateEmptyObject, literal.position);
            return generate_fields(names, context, fields);
        },
        _ => {},
    }
    let cell = match &literal.value {
        PengLiteral::Nil => Some(PengCell::Nil),
        PengLiteral::Int(v) => Some(PengCell::Int(*v)),
        PengLiteral::Uint(v) => Some(PengCell::Uint(*v)),
        PengLiteral::Byte(v) => Some(PengCell::Byte(*v)),
        PengLiteral::Bool(v) => Some(PengCell::Bool(*v)),
        _ => None,
    };
    match cell {
        Some(c) => {
            context.push_const_and_const_instruction(c, literal.position);
            Ok(())
        },
        None => match &literal.value {
            PengLiteral::String(s) => {
                let ptr = names.ensure_pooled_name_ptr(s.clone());
                context.push_positioned_instruction(PengInstruction::PushString(ptr), literal.position);
                Ok(())
            },
            _ => Err(PengError::InvalidState(String::from_str("literal not generated here"))),
        },
    }
}

fn generate_identifier_expression(
    names: &mut PengNamePool,
    context: &mut PengGeneratorContext,
    expression: &PengPositionedExpression,
) -> (res: Result<(), PengError>)
    requires
        old(context).wf(),
        gen_room(*old(names), *old(context), expression_size(*expression)),
        expression.value is Identifier,
    ensures
        gen_done(*old(names), *old(context), *final(names), *final(context), *expression, res),
{
    let identifier = match &expression.value {
        PengExpression::Identifier(identifier) => identifier,
        _ => return Err(PengError::InvalidState(String::from_str("expected identifier"))),
    };
    match context.get_local(identifier.value.as_str()) {
        Some(local) => {
            context.push_positioned_instruction(PengInstruction::PushLocal(local), identifier.position);
            return Ok(());
        },
        None => {},
    }
    let name_ptr = names.ensure_pooled_name_ptr(identifier.value.clone());
    let binding = match context.get_global(name_ptr) {
        Some(PengBinded::Mutable(p)) => PengBinded::Mutable(*p),
        Some(PengBinded::Immutable(p)) => PengBinded::Immutable(*p),
        None => {
            let mut message = String::from_str("unknown value '");
            message.append(identifier.value.as_str());
            message.append("'");
            return Err(PengError::new_positioned_message(message, identifier.position));
        },
    };
    context.push_positioned_instruction(PengInstruction::PushHeap(*binding.value()), identifier.position);
    match binding {
        PengBinded::Immutable(_) => {
            context.push_positioned_instruction(PengInstruction::MakeImmutable, identifier.position);
        },
        PengBinded::Mutable(_) => {},
    }
    Ok(())
}

fn generate_unary_expression(
    names: &mut PengNamePool,
    context: &mut PengGeneratorContext,
    expression: &PengPositionedExpression,
) -> (res: Result<(), PengError>)
    requires
        old(context).wf(),
        gen_room(*old(names), *old(context), expression_size(*expression)),
        expression.value is Unary,
    ensures
        gen_done(*old(names), *old(context), *final(names), *final(context), *expression, res),
    decreases expression, 2nat,
{
    let (operator, value) = match &expression.value {
        PengExpression::Unary { operator, value } => (operator, value),
        _ => return Err(PengError::InvalidState(String::from_str("expected unary expression"))),
    };
    match generate_expression(names, context, value) {
        Ok(()) => {},
        Err(e) => return Err(generating_failed(e)),
    }
    let instruction = match operator {
        PengUnaryOperator::Negate => PengInstruction::Negate,
        PengUnaryOperator::Not => PengInstruction::Not,
    };
    context.push_positioned_instruction(instruction, expression.position);
    Ok(())
}

fn generate_binary_expression(
    names: &mut PengNamePool,
    context: &mut PengGeneratorContext,
    expression: &PengPositionedExpression,
) -> (res: Result<(), PengError>)
    requires
        old(context).wf(),
        gen_room(*old(names), *old(context), expression_size(*expression)),
        expression.value is Binary,
    ensures
        gen_done(*old(names), *old(context), *final(names), *final(context), *expression, res),
    decreases expression, 2nat,
{
    let position = expression.position;
    let (left, operator, right) = match &expression.value {
        PengExpression::Binary { left, operator, right } => (left, operator, right),
        _ => return Err(PengError::InvalidState(String::from_str("expected binary expression"))),
    };
    match generate_expression(names, context, left) {
        Ok(()) => {},
        Err(e) => return Err(generating_failed(e)),
    }
    match operator {
        PengBinaryOperator::ShortCircuitAnd | PengBinaryOperator::ShortCircuitOr => {
            context.push_positioned_instruction(PengInstruction::Duplicate, position);
            let jump_index = context.bytecode_len();
            let jump = match operator {
                PengBinaryOperator::ShortCircuitAnd => PengInstruction::JumpIfFalse(usize::MAX),
                _ => PengInstruction::JumpIfTrue(usize::MAX),
            };
            context.push_positioned_instruction(jump, position);
            context.push_positioned_instruction(PengInstruction::Pop, position);
            match generate_expression(names, context, right) {
                Ok(()) => {},
                Err(e) => return Err(generating_failed(e)),
            }
            let target = context.bytecode_len();
            context.patch_jump(jump_index, target);
        },
        _ => {
            match generate_expression(names, context, right) {
                Ok(()) => {},
                Err(e) => return Err(generating_failed(e)),
            }
            let instruction = match operator {
                PengBinaryOperator::Add => PengInstruction::Add,
                PengBinaryOperator::Subtract => PengInstruction::Subtract,
                PengBinaryOperator::Multiply => PengInstruction::Multiply,
                PengBinaryOperator::Divide => PengInstruction::Divide,
                PengBinaryOperator::Power => PengInstruction::Power,
                PengBinaryOperator::Remainder => PengInstruction::Remainder,
                PengBinaryOperator::Concat => PengInstruction::Concat,
                PengBinaryOperator::NonShortCircuitAnd => PengInstruction::And,
                PengBinaryOperator::NonShortCircuitOr => PengInstruction::Or,
                PengBinaryOperator::Equals => PengInstruction::Equals,
                PengBinaryOperator::NotEquals => PengInstruction::NotEquals,
                PengBinaryOperator::GreaterThan => PengInstruction::GreaterThan,
                PengBinaryOperator::GreaterEqualsThan => PengInstruction::GreaterEqualsThan,
                PengBinaryOperator::LessThan => PengInstruction::LessThan,
                PengBinaryOperator::LessEqualsThan => PengInstruction::LessEqualsThan,
                _ => PengInstruction::Convert,
            };
            context.push_positioned_instruction(instruction, position);
        },
    }
    Ok(())
}

fn generate_access_expression(
    names: &mut PengNamePool,
    context: &mut PengGeneratorContext,
    expression: &PengPositionedExpression,
) -> (res: Result<(), PengError>)
    requires
        old(context).wf(),
        gen_room(*old(names), *old(context), expression_size(*expression)),
        expression.value is AttributeAccess || expression.value is MemberAccess,
    ensures
        gen_done(*old(names), *old(context), *final(names), *final(context), *expression, res),
    decreases expression, 2nat,
{
    let (object, field, is_member) = match &expression.value {
        PengExpression::AttributeAccess(access) => (&access.object, &access.name, false),
        PengExpression::MemberAccess(access) => (&access.object, &access.name, true),
        _ => return Err(PengError::InvalidState(String::from_str("expected access expression"))),
    };
    match generate_expression(names, context, object) {
        Ok(()) => {},
        Err(e) => return Err(generating_failed(e)),
    }
    let name = names.ensure_pooled_name_ptr(field.value.clone());
    let instruction = if is_member {
        PengInstruction::GetConstMember(name)
    } else {
        PengInstruction::GetConstAttribute(name)
    };
    context.push_positioned_instruction(instruction, expression.position);
    Ok(())
}

fn generate_index_expression(
    names: &mut PengNamePool,
    context: &mut PengGeneratorContext,
    expression: &PengPositionedExpression,
) -> (res: Result<(), PengError>)
    requires
        old(context).wf(),
        gen_room(*old(names), *old(context), expression_size(*expression)),
        expression.value is Index,
    ensures
        gen_done(*old(names), *old(context), *final(names), *final(context), *expression, res),
    decreases expression, 2nat,
{
    let index = match &expression.value {
        PengExpression::Index(index) => index,
        _ => return Err(PengError::InvalidState(String::from_str("expected index expression"))),
    };
    match generate_expression(names, context, &index.object) {
        Ok(()) => {},
        Err(e) => return Err(generating_failed(e)),
    }
    match generate_expression(names, context, &index.index) {
        Ok(()) => {},
        Err(e) => return Err(generating_failed(e)),
    }
    context.push_positioned_instruction(PengInstruction::GetIndex, expression.position);
    Ok(())
}

/// Appends the operation, its left and right operands, and the call of the operation.
pub fn generate_operation_call(
    names: &mut PengNamePool,
    context: &mut PengGeneratorContext,
    expression: &PengPositionedExpression,
) -> (res: Result<(), PengError>)
    requires
        old(context).wf(),
        gen_room(*old(names), *old(context), expression_size(*expression)),
        expression.value is OperationCall,
    ensures
        gen_done(*old(names), *old(context), *final(names), *final(context), *expression, res),
    decreases expression, 2nat,
{
    match generate_operation_operands(names, context, expression) {
        Ok(()) => {},
        Err(e) => return Err(e),
    }
    context.push_positioned_instruction(PengInstruction::OperationCall, expression.position);
    Ok(())
}

fn generate_operation_operands(
    names: &mut PengNamePool,
    context: &mut PengGeneratorContext,
    expression: &PengPositionedExpression,
) -> (res: Result<(), PengError>)
    requires
        old(context).wf(),
        gen_room(*old(names), *old(context), expression_size(*expression)),
        expression.value is OperationCall,
    ensures
        gen_kept(*old(context), *final(context)),
        gen_grew(*old(names), *old(context), *final(names), *final(context), (expression_size(*expression) - 1) as nat),
        gen_result(
            operation_operands(
                *expression,
                gen_state(*old(names), *old(context)),
                old(context).local_scopes(),
                old(context).own_globals(),
                old(context).used_globals(),
            ),
            *final(names),
            *final(context),
            res,
        ),
    decreases expression, 1nat,
{
    let (left, operation, right) = match &expression.value {
        PengExpression::OperationCall { left, operation, right } => (left, operation, right),
        _ => return Err(PengError::InvalidState(String::from_str("expected operation call"))),
    };
    match generate_expression(names, context, operation) {
        Ok(()) => {},
        Err(e) => return Err(generating_failed(e)),
    }
    match generate_expression(names, context, left) {
        Ok(()) => {},
        Err(e) => return Err(generating_failed(e)),
    }
    match generate_expression(names, context, right) {
        Ok(()) => {},
        Err(e) => return Err(generating_failed(e)),
    }
    Ok(())
}

/// Appends an object construction: the type, the typed object made from it, then its
/// fields.
pub fn generate_object_construction(
    names: &mut PengNamePool,
    context: &mut PengGeneratorContext,
    expression: &PengPositionedExpression,
) -> (res: Result<(), PengError>)
    requires
        old(context).wf(),
        gen_room(*old(names), *old(context), expression_size(*expression)),
        expression.value is ObjectConstruction,
    ensures
        gen_done(*old(names), *old(context), *final(names), *final(context), *expression, res),
    decreases expression, 2nat,
{
    let construction = match &expression.value {
        PengExpression::ObjectConstruction(construction) => construction,
        _ => return Err(PengError::InvalidState(String::from_str("expected object construction"))),
    };
    match generate_expression(names, context, &construction.object_type) {
        Ok(()) => {},
        Err(e) => return Err(generating_failed(e)),
    }
    context.push_positioned_instruction(PengInstruction::CreateTypedObject, expression.position);
    generate_fields(names, context, &construction.fields)
}

/// Appends the code of expressions, in order (see `exprs_code`).
fn generate_exprs(
    names: &mut PengNamePool,
    context: &mut PengGeneratorContext,
    values: &Vec<PengPositionedExpression>,
) -> (res: Result<(), PengError>)
    requires
        old(context).wf(),
        gen_room(*old(names), *old(context), exprs_size(values@)),
    ensures
        gen_kept(*old(context), *final(context)),
        gen_grew(*old(names), *old(context), *final(names), *final(context), exprs_size(values@)),
        gen_result(
            exprs_code(
                values@,
                gen_state(*old(names), *old(context)),
                old(context).local_scopes(),
                old(context).own_globals(),
                old(context).used_globals(),
            ),
            *final(names),
            *final(context),
            res,
        ),
    decreases values, 0nat,
{
    let ghost sc = context.local_scopes();
    let ghost own = context.own_globals();
    let ghost used = context.used_globals();
    let ghost st0 = gen_state(*names, *context);
    let ghost n0 = *names;
    let ghost c0 = *context;
    let mut i: usize = 0;
    while i < values.len()
        invariant
            i <= values@.len(),
            gen_kept(c0, *context),
            gen_grew(n0, c0, *names, *context, exprs_size(values@.take(i as int))),
            gen_room(n0, c0, exprs_size(values@)),
            exprs_code(values@.take(i as int), st0, sc, own, used) == Some(gen_state(*names, *context)),
            sc == c0.local_scopes(),
            own == c0.own_globals(),
            used == c0.used_globals(),
            st0 == gen_state(n0, c0),
            c0 == *old(context),
            n0 == *old(names),
        decreases values@.len() - i,
    {
        proof {
            assert(values@.take(i + 1).drop_last() =~= values@.take(i as int));
            assert(values@.take(i + 1).last() == values@[i as int]);
            lemma_exprs_size_take(values@, i as int);
            assert(decreases_to!(values => values@[i as int]));
        }
        let ghost cb = *context;
        match generate_expression(names, context, &values[i]) {
            Ok(()) => {},
            Err(e) => {
                proof {
                    assert(gen_kept(cb, *context));
                    assert(gen_kept(c0, *context));
                    assert(gen_grew(n0, c0, *names, *context, exprs_size(values@)));
                    lemma_exprs_code_none(values@, i as int, st0, sc, own, used);
                }
                return Err(generating_failed(e));
            },
        }
        i = i + 1;
    }
    proof {
        assert(values@.take(i as int) =~= values@);
    }
    Ok(())
}

proof fn lemma_exprs_size_take(values: Seq<PengPositionedExpression>, i: int)
    requires
        0 <= i < values.len(),
    ensures
        exprs_size(values.take(i + 1)) == exprs_size(values.take(i)) + expression_size(values[i]),
        exprs_size(values.take(i + 1)) <= exprs_size(values),
    decreases values.len(),
{
    assert(values.take(i + 1).drop_last() =~= values.take(i));
    if i + 1 < values.len() {
        lemma_exprs_size_take(values.drop_last(), i);
        assert(values.drop_last().take(i + 1) =~= values.take(i + 1));
        assert(values.drop_last()[i] == values[i]);
    } else {
        assert(values.take(i + 1) =~= values);
    }
}

proof fn lemma_exprs_code_none(
    values: Seq<PengPositionedExpression>,
    i: int,
    st: PengGenState,
    scopes: Seq<Map<Seq<char>, usize>>,
    own: Map<PengNamePoolPtr, PengBinded<PengHeapPtr>>,
    used: Map<PengNamePoolPtr, PengBinded<PengHeapPtr>>,
)
    requires
        0 <= i < values.len(),
        exprs_code(values.take(i + 1), st, scopes, own, used) is None,
    ensures
        exprs_code(values, st, scopes, own, used) is None,
    decreases values.len(),
{
    if i + 1 < values.len() {
        assert(values.drop_last().take(i + 1) =~= values.take(i + 1));
        lemma_exprs_code_none(values.drop_last(), i, st, scopes, own, used);
    } else {
        assert(values.take(i + 1) =~= values);
    }
}

/// Appends the code that sets fields on the object on top of the stack (see
/// `fields_code`).
fn generate_fields(
    names: &mut PengNamePool,
    context: &mut PengGeneratorContext,
    fields: &Vec<PengObjectFieldLiteral>,
) -> (res: Result<(), PengError>)
    requires
        old(context).wf(),
        gen_room(*old(names), *old(context), fields_size(fields@)),
    ensures
        gen_kept(*old(context), *final(context)),
        gen_grew(*old(names), *old(context), *final(names), *final(context), fields_size(fields@)),
        gen_result(
            fields_code(
                fields@,
                gen_state(*old(names), *old(context)),
                old(context).local_scopes(),
                old(context).own_globals(),
                old(context).used_globals(),
            ),
            *final(names),
            *final(context),
            res,
        ),
    decreases fields, 0nat,
{
    let ghost sc = context.local_scopes();
    let ghost own = context.own_globals();
    let ghost used = context.used_globals();
    let ghost st0 = gen_state(*names, *context);
    let ghost n0 = *names;
    let ghost c0 = *context;
    let mut i: usize = 0;
    while i < fields.len()
        invariant
            i <= fields@.len(),
            gen_kept(c0, *context),
            gen_grew(n0, c0, *names, *context, fields_size(fields@.take(i as int))),
            gen_room(n0, c0, fields_size(fields@)),
            fields_code(fields@.take(i as int), st0, sc, own, used) == Some(gen_state(*names, *context)),
            sc == c0.local_scopes(),
            own == c0.own_globals(),
            used == c0.used_globals(),
            st0 == gen_state(n0, c0),
            c0 == *old(context),
            n0 == *old(names),
        decreases fields@.len() - i,
    {
        proof {
            assert(fields@.take(i + 1).drop_last() =~= fields@.take(i as int));
            assert(fields@.take(i + 1).last() == fields@[i as int]);
            lemma_fields_size_take(fields@, i as int);
            assert(decreases_to!(fields => fields@[i as int]));
        }
        let field = &fields[i];
        context.push_positioned_instruction(PengInstruction::Duplicate, field.name.position);
        let name = names.ensure_pooled_name_ptr(field.name.value.clone());
        let ghost cb = *context;
        match generate_expression(names, context, &field.value) {
            Ok(()) => {},
            Err(e) => {
                proof {
                    assert(gen_kept(cb, *context));
                    assert(gen_kept(c0, *context));
                    assert(gen_grew(n0, c0, *names, *context, fields_size(fields@)));
                    lemma_fields_code_none(fields@, i as int, st0, sc, own, used);
                }
                return Err(generating_failed(e));
            },
        }
        context.push_positioned_instruction(PengInstruction::SetConstAttribute(name), field.name.position);
        i = i + 1;
    }
    proof {
        assert(fields@.take(i as int) =~= fields@);
    }
    Ok(())
}

proof fn lemma_fields_size_take(fields: Seq<PengObjectFieldLiteral>, i: int)
    requires
        0 <= i < fields.len(),
    ensures
        fields_size(fields.take(i + 1)) == fields_size(fields.take(i)) + 1 + expression_size(fields[i].value),
        fields_size(fields.take(i + 1)) <= fields_size(fields),
    decreases fields.len(),
{
    assert(fields.take(i + 1).drop_last() =~= fields.take(i));
    if i + 1 < fields.len() {
        lemma_fields_size_take(fields.drop_last(), i);
        assert(fields.drop_last().take(i + 1) =~= fields.take(i + 1));
        assert(fields.drop_last()[i] == fields[i]);
    } else {
        assert(fields.take(i + 1) =~= fields);
    }
}

proof fn lemma_fields_code_none(
    fields: Seq<PengObjectFieldLiteral>,
    i: int,
    st: PengGenState,
    scopes: Seq<Map<Seq<char>, usize>>,
    own: Map<PengNamePoolPtr, PengBinded<PengHeapPtr>>,
    used: Map<PengNamePoolPtr, PengBinded<PengHeapPtr>>,
)
    requires
        0 <= i < fields.len(),
        fields_code(fields.take(i + 1), st, scopes, own, used) is None,
    ensures
        fields_code(fields, st, scopes, own, used) is None,
    decreases fields.len(),
{
    if i + 1 < fields.len() {
        assert(fields.drop_last().take(i + 1) =~= fields.take(i + 1));
        lemma_fields_code_none(fields.drop_last(), i, st, scopes, own, used);
    } else {
        assert(fields.take(i + 1) =~= fields);
    }
}

/// Appends the code of call arguments, in order (see `args_code`).
fn generate_args(
    names: &mut PengNamePool,
    context: &mut PengGeneratorContext,
    args: &Vec<PengPositionedFunctionCallArg>,
) -> (res: Result<(), PengError>)
    requires
        old(context).wf(),
        gen_room(*old(names), *old(context), args_size(args@)),
    ensures
        gen_kept(*old(context), *final(context)),
        gen_grew(*old(names), *old(context), *final(names), *final(context), args_size(args@)),
        gen_result(
            args_code(
                args@,
                gen_state(*old(names), *old(context)),
                old(context).local_scopes(),
                old(context).own_globals(),
                old(context).used_globals(),
            ),
            *final(names),
            *final(context),
            res,
        ),
    decreases args, 0nat,
{
    let ghost sc = context.local_scopes();
    let ghost own = context.own_globals();
    let ghost used = context.used_globals();
    let ghost st0 = gen_state(*names, *context);
    let ghost n0 = *names;
    let ghost c0 = *context;
    let mut i: usize = 0;
    while i < args.len()
        invariant
            i <= args@.len(),
            gen_kept(c0, *context),
            gen_grew(n0, c0, *names, *context, args_size(args@.take(i as int))),
            gen_room(n0, c0, args_size(args@)),
            args_code(args@.take(i as int), st0, sc, own, used) == Some(gen_state(*names, *context)),
            sc == c0.local_scopes(),
            own == c0.own_globals(),
            used == c0.used_globals(),
            st0 == gen_state(n0, c0),
            c0 == *old(context),
            n0 == *old(names),
        decreases args@.len() - i,
    {
        proof {
            assert(args@.take(i + 1).drop_last() =~= args@.take(i as int));
            assert(args@.take(i + 1).last() == args@[i as int]);
            lemma_args_size_take(args@, i as int);
            assert(decreases_to!(args => args@[i as int]));
        }
        let ghost nb = *names;
        let ghost cb = *context;
        match generate_expression(names, context, &args[i].value.expression) {
            Ok(()) => {},
            Err(e) => {
                proof {
                    assert(gen_kept(cb, *context));
                    assert(gen_kept(c0, *context));
                    assert(gen_grew(n0, c0, *names, *context, args_size(args@)));
                    lemma_args_code_none(args@, i as int, st0, sc, own, used);
                }
                return Err(generating_failed(e));
            },
        }
        i = i + 1;
    }
    proof {
        assert(args@.take(i as int) =~= args@);
    }
    Ok(())
}

proof fn lemma_args_size_take(args: Seq<PengPositionedFunctionCallArg>, i: int)
    requires
        0 <= i < args.len(),
    ensures
        args_size(args.take(i + 1)) == args_size(args.take(i)) + expression_size(args[i].value.expression),
        args_size(args.take(i + 1)) <= args_size(args),
    decreases args.len(),
{
    assert(args.take(i + 1).drop_last() =~= args.take(i));
    if i + 1 < args.len() {
        lemma_args_size_take(args.drop_last(), i);
        assert(args.drop_last().take(i + 1) =~= args.take(i + 1));
        assert(args.drop_last()[i] == args[i]);
    } else {
        assert(args.take(i + 1) =~= args);
    }
}

proof fn lemma_args_code_none(
    args: Seq<PengPositionedFunctionCallArg>,
    i: int,
    st: PengGenState,
    scopes: Seq<Map<Seq<char>, usize>>,
    own: Map<PengNamePoolPtr, PengBinded<PengHeapPtr>>,
    used: Map<PengNamePoolPtr, PengBinded<PengHeapPtr>>,
)
    requires
        0 <= i < args.len(),
        args_code(args.take(i + 1), st, scopes, own, used) is None,
    ensures
        args_code(args, st, scopes, own, used) is None,
    decreases args.len(),
{
    if i + 1 < args.len() {
        assert(args.drop_last().take(i + 1) =~= args.take(i + 1));
        lemma_args_code_none(args.drop_last(), i, st, scopes, own, used);
    } else {
        assert(args.take(i + 1) =~= args);
    }
}

/// Checks that only the last argument is unpacked, and appends the arguments' code; gives
/// where the unpacked argument stands, if one is.
pub fn generate_function_call_args(
    names: &mut PengNamePool,
    context: &mut PengGeneratorContext,
    args: &Vec<PengPositionedFunctionCallArg>,
) -> (res: Result<Option<usize>, PengError>)
    requires
        old(context).wf(),
        gen_room(*old(names), *old(context), args_size(args@)),
    ensures
        gen_kept(*old(context), *final(context)),
        gen_grew(*old(names), *old(context), *final(names), *final(context), args_size(args@)),
        !spread_ok(args@) ==> res is Err,
        spread_ok(args@) ==> gen_result(
            args_code(
                args@,
                gen_state(*old(names), *old(context)),
                old(context).local_scopes(),
                old(context).own_globals(),
                old(context).used_globals(),
            ),
            *final(names),
            *final(context),
            match res {
                Ok(_) => Ok(()),
                Err(e) => Err(e),
            },
        ),
        res matches Ok(v) ==> v == (if args@.len() > 0 && args@.last().value.variadic {
            Some((args@.len() - 1) as usize)
        } else {
            None
        }),
    decreases args, 1nat,
{
    let n = args.len();
    let mut i: usize = 0;
    while n > 0 && i < n - 1
        invariant
            n == args@.len(),
            i <= n,
            *context == *old(context),
            *names == *old(names),
            context.wf(),
            forall|j: int| 0 <= j < i && j < n - 1 ==> !(#[trigger] args@[j]).value.variadic,
        decreases n - i,
    {
        if args[i].value.variadic {
            let mut message = String::from_str("variadic unpacking must be the last argument");
            return Err(PengError::new_positioned_message(message, args[i].position));
        }
        i = i + 1;
    }
    match generate_args(names, context, args) {
        Ok(()) => {},
        Err(e) => return Err(e),
    }
    if n > 0 && args[n - 1].value.variadic {
        Ok(Some(n - 1))
    } else {
        Ok(None)
    }
}

/// Appends a function call: the function, its arguments, and the call.
pub fn generate_function_call(
    names: &mut PengNamePool,
    context: &mut PengGeneratorContext,
    call: &crate::parser::ast::PengFuncCallExpression,
    pos: PengPosition,
) -> (res: Result<(), PengError>)
    requires
        old(context).wf(),
        gen_room(*old(names), *old(context), expression_size(*call.function) + args_size(call.args@)),
    ensures
        gen_kept(*old(context), *final(context)),
        gen_grew(*old(names), *old(context), *final(names), *final(context), expression_size(*call.function) + args_size(call.args@)),
        gen_result(
            match expression_code(
                *call.function,
                gen_state(*old(names), *old(context)),
                old(context).local_scopes(),
                old(context).own_globals(),
                old(context).used_globals(),
            ) {
                Some(s1) => if spread_ok(call.args@) {
                    match args_code(call.args@, s1, old(context).local_scopes(), old(context).own_globals(), old(context).used_globals()) {
                        Some(s2) => Some(emit(s2, call_instruction(call.args@, false, 0), pos)),
                        None => None,
                    }
                } else {
                    None
                },
                None => None,
            },
            *final(names),
            *final(context),
            res,
        ),
    decreases call, 0nat,
{
    match generate_expression(names, context, &call.function) {
        Ok(()) => {},
        Err(e) => return Err(generating_failed(e)),
    }
    let spread = match generate_function_call_args(names, context, &call.args) {
        Ok(v) => v,
        Err(e) => return Err(generating_failed(e)),
    };
    let instruction = match spread {
        Some(index) => PengInstruction::FunctionCallSpread(index),
        None => PengInstruction::FunctionCall(call.args.len()),
    };
    context.push_positioned_instruction(instruction, pos);
    Ok(())
}

/// Appends a method call: the object is kept in a new temporary local, the method is
/// read from it, and it is passed before the arguments.
pub fn generate_method_call(
    names: &mut PengNamePool,
    context: &mut PengGeneratorContext,
    call: &crate::parser::ast::PengMethodCallExpression,
    pos: PengPosition,
) -> (res: Result<(), PengError>)
    requires
        old(context).wf(),
        gen_room(*old(names), *old(context), 2 + expression_size(*call.object) + args_size(call.args@)),
    ensures
        gen_kept(*old(context), *final(context)),
        gen_grew(*old(names), *old(context), *final(names), *final(context), 2 + expression_size(*call.object) + args_size(call.args@)),
        gen_result(
            match method_code(*call, gen_state(*old(names), *old(context)), old(context).local_scopes(), old(context).own_globals(), old(context).used_globals(), pos) {
                Some(s1) => match args_code(call.args@, s1, old(context).local_scopes(), old(context).own_globals(), old(context).used_globals()) {
                    Some(s2) => Some(emit(s2, PengInstruction::FunctionCall((call.args@.len() + 1) as usize), pos)),
                    None => None,
                },
                None => None,
            },
            *final(names),
            *final(context),
            res,
        ),
    decreases call, 1nat,
{
    proof {
        lemma_args_size_len(call.args@);
    }
    match generate_method_prefix(names, context, call, pos) {
        Ok(()) => {},
        Err(e) => return Err(e),
    }
    match generate_args(names, context, &call.args) {
        Ok(()) => {},
        Err(e) => return Err(generating_failed(e)),
    }
    context.push_positioned_instruction(PengInstruction::FunctionCall(call.args.len() + 1), pos);
    Ok(())
}

fn generate_method_prefix(
    names: &mut PengNamePool,
    context: &mut PengGeneratorContext,
    call: &crate::parser::ast::PengMethodCallExpression,
    pos: PengPosition,
) -> (res: Result<(), PengError>)
    requires
        old(context).wf(),
        gen_room(*old(names), *old(context), 2 + expression_size(*call.object) + args_size(call.args@)),
    ensures
        gen_kept(*old(context), *final(context)),
        gen_grew(*old(names), *old(context), *final(names), *final(context), 2 + expression_size(*call.object)),
        gen_room(*final(names), *final(context), args_size(call.args@)),
        gen_result(
            method_code(*call, gen_state(*old(names), *old(context)), old(context).local_scopes(), old(context).own_globals(), old(context).used_globals(), pos),
            *final(names),
            *final(context),
            res,
        ),
    decreases call, 0nat,
{
    let local = context.generate_reserved_temporary_local(pos);
    match generate_expression(names, context, &call.object) {
        Ok(()) => {},
        Err(e) => return Err(generating_failed(e)),
    }
    context.push_positioned_instruction(PengInstruction::StoreLocal(local), pos);
    let method = names.ensure_pooled_name_ptr(call.method.value.clone());
    context.push_positioned_instruction(PengInstruction::PushLocal(local), pos);
    context.push_positioned_instruction(PengInstruction::GetConstAttribute(method), pos);
    context.push_positioned_instruction(PengInstruction::PushLocal(local), pos);
    Ok(())
}

/// Appends the call a `try` guards (see `try_call_code`), made so that it leaves its
/// result and whether it succeeded.
fn generate_try_call(
    names: &mut PengNamePool,
    context: &mut PengGeneratorContext,
    value: &PengPositionedExpression,
    pos: PengPosition,
) -> (res: Result<(), PengError>)
    requires
        old(context).wf(),
        gen_room(*old(names), *old(context), expression_size(*value)),
    ensures
        gen_kept(*old(context), *final(context)),
        gen_grew(*old(names), *old(context), *final(names), *final(context), expression_size(*value)),
        gen_result(
            try_call_code(
                *value,
                gen_state(*old(names), *old(context)),
                old(context).local_scopes(),
                old(context).own_globals(),
                old(context).used_globals(),
                pos,
            ),
            *final(names),
            *final(context),
            res,
        ),
    decreases value, 2nat,
{
    match &value.value {
        PengExpression::FuncCall(call) => {
            match generate_expression(names, context, &call.function) {
                Ok(()) => {},
                Err(e) => return Err(e.push(PengError::InvalidState(String::from_str("failed while generating try function call")))),
            }
            let spread = match generate_function_call_args(names, context, &call.args) {
                Ok(v) => v,
                Err(e) => return Err(e.push(PengError::InvalidState(String::from_str("failed while generating try function call args")))),
            };
            let instruction = match spread {
                Some(index) => PengInstruction::TryFunctionCallSpread(index),
                None => PengInstruction::TryFunctionCall(call.args.len()),
            };
            context.push_positioned_instruction(instruction, pos);
            Ok(())
        },
        PengExpression::MethodCall(call) => {
            proof {
                lemma_args_size_len(call.args@);
            }
            match generate_method_prefix(names, context, call, pos) {
                Ok(()) => {},
                Err(e) => return Err(e.push(PengError::InvalidState(String::from_str("failed while generating try method call object")))),
            }
            let spread = match generate_function_call_args(names, context, &call.args) {
                Ok(v) => v,
                Err(e) => return Err(e.push(PengError::InvalidState(String::from_str("failed while generating try method call args")))),
            };
            let instruction = match spread {
                Some(index) => PengInstruction::TryFunctionCallSpread(index + 1),
                None => PengInstruction::TryFunctionCall(call.args.len() + 1),
            };
            context.push_positioned_instruction(instruction, pos);
            Ok(())
        },
        PengExpression::OperationCall { .. } => {
            match generate_operation_operands(names, context, value) {
                Ok(()) => {},
                Err(e) => return Err(e.push(PengError::InvalidState(String::from_str("failed while generating try operation call")))),
            }
            context.push_positioned_instruction(PengInstruction::TryOperationCall, pos);
            Ok(())
        },
        _ => Err(
            PengError::new_positioned_message(
                String::from_str("expected function, method or operation call after try"),
                value.position,
            ),
        ),
    }
}

/// Appends the code of `try`: the guarded call leaves its result and whether it
/// succeeded; on failure the result is dropped and the `else` value, or nil, stands in
/// its place (see `expression_code`). `expression` is the `try` itself.
pub fn generate_try_expression(
    names: &mut PengNamePool,
    context: &mut PengGeneratorContext,
    expression: &PengPositionedExpression,
) -> (res: Result<(), PengError>)
    requires
        old(context).wf(),
        gen_room(*old(names), *old(context), expression_size(*expression)),
        expression.value is Try,
    ensures
        gen_done(*old(names), *old(context), *final(names), *final(context), *expression, res),
    decreases expression, 2nat,
{
    let pos = expression.position;
    let (value, elsing) = match &expression.value {
        PengExpression::Try { value, elsing } => (value, elsing),
        _ => return Err(PengError::InvalidState(String::from_str("expected try expression"))),
    };
    match generate_try_call(names, context, value, pos) {
        Ok(()) => {},
        Err(e) => return Err(e),
    }
    let success_jump = context.bytecode_len();
    context.push_positioned_instruction(PengInstruction::JumpIfTrue(usize::MAX), pos);
    context.push_positioned_instruction(PengInstruction::Pop, pos);
    match elsing {
        Some(elsing) => match generate_expression(names, context, elsing) {
            Ok(()) => {},
            Err(e) => return Err(e.push(PengError::InvalidState(String::from_str("failed while generating try else expression")))),
        },
        None => {
            context.push_const_and_const_instruction(PengCell::Nil, pos);
        },
    }
    let end = context.bytecode_len();
    context.patch_jump(success_jump, end);
    Ok(())
}

/// Each comparison operator compiles to an instruction that, on two signed integer cells,
/// gives whether that relation holds between them (`<=` gives `true` on equal values,
/// `<` gives `false`); `+`, `-` and `*` compile to instructions that give the exact sum,
/// difference and product (undefined when it does not fit); `/`, `%` and `**` to the
/// division, remainder and power instructions.
pub proof fn lemma_operators_compute(a: isize, b: isize)
    ensures
        comparison_of(binary_instruction(PengBinaryOperator::Equals), PengCell::Int(a), PengCell::Int(b)) == Some(a == b),
        comparison_of(binary_instruction(PengBinaryOperator::NotEquals), PengCell::Int(a), PengCell::Int(b)) == Some(a != b),
        comparison_of(binary_instruction(PengBinaryOperator::GreaterThan), PengCell::Int(a), PengCell::Int(b)) == Some(a > b),
        comparison_of(binary_instruction(PengBinaryOperator::GreaterEqualsThan), PengCell::Int(a), PengCell::Int(b))
            == Some(a >= b),
        comparison_of(binary_instruction(PengBinaryOperator::LessThan), PengCell::Int(a), PengCell::Int(b)) == Some(a < b),
        comparison_of(binary_instruction(PengBinaryOperator::LessEqualsThan), PengCell::Int(a), PengCell::Int(b))
            == Some(a <= b),
        numeric_operation(binary_instruction(PengBinaryOperator::Add)) matches Some(n) && numeric_result(
            PengCell::Int(a),
            PengCell::Int(b),
            n,
        ) == signed_cell(a + b),
        numeric_operation(binary_instruction(PengBinaryOperator::Subtract)) matches Some(n) && numeric_result(
            PengCell::Int(a),
            PengCell::Int(b),
            n,
        ) == signed_cell(a - b),
        numeric_operation(binary_instruction(PengBinaryOperator::Multiply)) matches Some(n) && numeric_result(
            PengCell::Int(a),
            PengCell::Int(b),
            n,
        ) == signed_cell(a * b),
        numeric_operation(binary_instruction(PengBinaryOperator::Divide)) == Some(PengNumericOperation::Divide),
        numeric_operation(binary_instruction(PengBinaryOperator::Remainder)) == Some(PengNumericOperation::Remainder),
        numeric_operation(binary_instruction(PengBinaryOperator::Power)) == Some(PengNumericOperation::Power),
{
    crate::numeric::lemma_integer_cells_add_subtract_multiply(a, b, 0, 0, 0, 0);
}

/// `&` and `|` compile to instructions that, on two booleans on top of the stack, replace
/// them by their conjunction and their disjunction.
pub proof fn lemma_logic_operators_compute(
    t0: PengCallStack,
    t1: PengCallStack,
    op: PengBinaryOperator,
    x: bool,
    y: bool,
    res: Result<PengStackStep, PengError>,
)
    requires
        op == PengBinaryOperator::NonShortCircuitAnd || op == PengBinaryOperator::NonShortCircuitOr,
        t0.stack@.len() >= 2,
        t0.stack@[t0.stack@.len() - 2].bound() == PengCell::Bool(x),
        t0.stack@.last().bound() == PengCell::Bool(y),
        logic_effect(t0, t1, binary_instruction(op), res),
    ensures
        res matches Ok(PengStackStep::Done),
        t1.stack@ == t0.stack@.take(t0.stack@.len() - 2).push(
            PengBinded::Mutable(
                PengCell::Bool(
                    if op == PengBinaryOperator::NonShortCircuitAnd {
                        x && y
                    } else {
                        x || y
                    },
                ),
            ),
        ),
{
    let s = t0.stack@;
    assert(s.last() == s[s.len() - 1]);
}

/// Folding constants agrees with running the compiled code: on two signed integer
/// literals, a comparison folds to the boolean its instruction pushes, and arithmetic
/// (other than raising to a negative power, which is left to floating point at run time)
/// folds to the integer its instruction computes, or does not fold exactly where that
/// instruction's result is undefined.
pub proof fn lemma_folding_agrees_with_running(op: PengBinaryOperator, a: isize, b: isize)
    requires
        !(op == PengBinaryOperator::Power && b < 0),
    ensures
        is_comparison(op) || op == PengBinaryOperator::Equals || op == PengBinaryOperator::NotEquals ==> (comparison_of(
            binary_instruction(op),
            PengCell::Int(a),
            PengCell::Int(b),
        ) matches Some(c) && fold_binary_spec(op, PengLiteral::Int(a), PengLiteral::Int(b)) == Some(PengLiteral::Bool(c))),
        is_arith(op) ==> (numeric_operation(binary_instruction(op)) matches Some(n) && match numeric_result(
            PengCell::Int(a),
            PengCell::Int(b),
            n,
        ) {
            PengNumericResult::Value(PengCell::Int(x)) => fold_binary_spec(op, PengLiteral::Int(a), PengLiteral::Int(b))
                == Some(PengLiteral::Int(x)),
            PengNumericResult::Undefined => fold_binary_spec(op, PengLiteral::Int(a), PengLiteral::Int(b)) is None,
            _ => false,
        }),
{
}

/// Folding constants agrees with running the compiled code on unsigned integers and on
/// bytes too: a comparison folds to the boolean its instruction pushes, and arithmetic
/// folds to the value of the same kind that its instruction computes, or does not fold
/// exactly where that result is undefined.
pub proof fn lemma_unsigned_folding_agrees_with_running(op: PengBinaryOperator, c: usize, d: usize, x: u8, y: u8)
    ensures
        is_comparison(op) || op == PengBinaryOperator::Equals || op == PengBinaryOperator::NotEquals ==> (comparison_of(
            binary_instruction(op),
            PengCell::Uint(c),
            PengCell::Uint(d),
        ) matches Some(v) && fold_binary_spec(op, PengLiteral::Uint(c), PengLiteral::Uint(d)) == Some(PengLiteral::Bool(v))),
        is_comparison(op) || op == PengBinaryOperator::Equals || op == PengBinaryOperator::NotEquals ==> (comparison_of(
            binary_instruction(op),
            PengCell::Byte(x),
            PengCell::Byte(y),
        ) matches Some(v) && fold_binary_spec(op, PengLiteral::Byte(x), PengLiteral::Byte(y)) == Some(PengLiteral::Bool(v))),
        is_arith(op) ==> (numeric_operation(binary_instruction(op)) matches Some(n) && match numeric_result(
            PengCell::Uint(c),
            PengCell::Uint(d),
            n,
        ) {
            PengNumericResult::Value(PengCell::Uint(v)) => fold_binary_spec(op, PengLiteral::Uint(c), PengLiteral::Uint(d))
                == Some(PengLiteral::Uint(v)),
            PengNumericResult::Undefined => fold_binary_spec(op, PengLiteral::Uint(c), PengLiteral::Uint(d)) is None,
            _ => false,
        }),
        is_arith(op) ==> (numeric_operation(binary_instruction(op)) matches Some(n) && match numeric_result(
            PengCell::Byte(x),
            PengCell::Byte(y),
            n,
        ) {
            PengNumericResult::Value(PengCell::Byte(v)) => fold_binary_spec(op, PengLiteral::Byte(x), PengLiteral::Byte(y))
                == Some(PengLiteral::Byte(v)),
            PengNumericResult::Undefined => fold_binary_spec(op, PengLiteral::Byte(x), PengLiteral::Byte(y)) is None,
            _ => false,
        }),
{
}

/// The code of `-x` and `!x` ends with an instruction that computes the operator on the
/// value of `x` on top of the stack: `-` gives the opposite of a signed integer, `!` the
/// negation of a boolean.
pub proof fn lemma_unary_operators_compute(
    e: PengPositionedExpression,
    st: PengGenState,
    scopes: Seq<Map<Seq<char>, usize>>,
    own: Map<PengNamePoolPtr, PengBinded<PengHeapPtr>>,
    used: Map<PengNamePoolPtr, PengBinded<PengHeapPtr>>,
    t0: PengCallStack,
    t1: PengCallStack,
    res: Result<PengStackStep, PengError>,
)
    requires
        e.value is Unary,
        expression_code(e, st, scopes, own, used) is Some,
        t0.stack@.len() >= 1,
        logic_effect(t0, t1, expression_code(e, st, scopes, own, used)->0.code.last(), res),
    ensures
        e.value->Unary_operator == PengUnaryOperator::Negate ==> (t0.stack@.last().bound() matches PengCell::Int(v) ==> (v
            != isize::MIN ==> t1.stack@ == t0.stack@.drop_last().push(PengBinded::Mutable(PengCell::Int((-v) as isize)))
            && v + ((-v) as isize) == 0)),
        e.value->Unary_operator == PengUnaryOperator::Not ==> (t0.stack@.last().bound() matches PengCell::Bool(b)
            ==> t1.stack@ == t0.stack@.drop_last().push(PengBinded::Mutable(PengCell::Bool(!b)))),
{
}

/// `s` holds the code of `st` unchanged at its start.
pub open spec fn appended(st: PengGenState, s: PengGenState) -> bool {
    &&& st.code.len() <= s.code.len()
    &&& forall|i: int| 0 <= i < st.code.len() ==> #[trigger] s.code[i] == st.code[i]
}

/// Generating the code of an expression only adds code after what was there: the code
/// already written is left as it was (for code that fits in memory).
pub proof fn lemma_expression_code_appends(
    e: PengPositionedExpression,
    st: PengGenState,
    scopes: Seq<Map<Seq<char>, usize>>,
    own: Map<PengNamePoolPtr, PengBinded<PengHeapPtr>>,
    used: Map<PengNamePoolPtr, PengBinded<PengHeapPtr>>,
)
    ensures
        expression_code(e, st, scopes, own, used) matches Some(s) ==> (s.code.len() <= usize::MAX ==> appended(st, s)),
    decreases e, 3nat,
{
    match e.value {
        PengExpression::Literal(l) => match l.value {
            PengLiteral::Vector(values) => {
                lemma_exprs_code_appends(values@, st, scopes, own, used);
            },
            PengLiteral::Object(fields) => {
                let s0 = emit(st, PengInstruction::CreateEmptyObject, l.position);
                lemma_fields_code_appends(fields@, s0, scopes, own, used);
            },
            _ => {},
        },
        PengExpression::ObjectConstruction(c) => {
            lemma_expression_code_appends(*c.object_type, st, scopes, own, used);
            if let Some(s1) = expression_code(*c.object_type, st, scopes, own, used) {
                lemma_fields_code_appends(c.fields@, emit(s1, PengInstruction::CreateTypedObject, e.position), scopes, own, used);
            }
        },
        PengExpression::Unary { operator, value } => {
            lemma_expression_code_appends(*value, st, scopes, own, used);
        },
        PengExpression::Binary { left, operator, right } => {
            lemma_expression_code_appends(*left, st, scopes, own, used);
            if let Some(s1) = expression_code(*left, st, scopes, own, used) {
                let jump = if operator == PengBinaryOperator::ShortCircuitAnd {
                    PengInstruction::JumpIfFalse(usize::MAX)
                } else {
                    PengInstruction::JumpIfTrue(usize::MAX)
                };
                let s2 = emit(emit(emit(s1, PengInstruction::Duplicate, e.position), jump, e.position), PengInstruction::Pop, e.position);
                lemma_expression_code_appends(*right, s2, scopes, own, used);
                lemma_expression_code_appends(*right, s1, scopes, own, used);
                if operator == PengBinaryOperator::ShortCircuitAnd || operator == PengBinaryOperator::ShortCircuitOr {
                    if let Some(s3) = expression_code(*right, s2, scopes, own, used) {
                        if s3.code.len() <= usize::MAX {
                            let pc = patched(s3.code, (s1.code.len() + 1) as usize, s3.code.len() as usize);
                            assert(forall|i: int| 0 <= i < st.code.len() ==> pc[i] == s3.code[i]);
                        }
                    }
                }
            }
        },
        PengExpression::AttributeAccess(a) => {
            lemma_expression_code_appends(*a.object, st, scopes, own, used);
        },
        PengExpression::MemberAccess(a) => {
            lemma_expression_code_appends(*a.object, st, scopes, own, used);
        },
        PengExpression::Index(ix) => {
            lemma_expression_code_appends(*ix.object, st, scopes, own, used);
            if let Some(s1) = expression_code(*ix.object, st, scopes, own, used) {
                lemma_expression_code_appends(*ix.index, s1, scopes, own, used);
            }
        },
        PengExpression::FuncCall(c) => {
            lemma_expression_code_appends(*c.function, st, scopes, own, used);
            if let Some(s1) = expression_code(*c.function, st, scopes, own, used) {
                lemma_args_code_appends(c.args@, s1, scopes, own, used);
            }
        },
        PengExpression::MethodCall(c) => {
            lemma_method_prefix_appends(e, st, scopes, own, used, e.position);
            if let Some(s1) = method_prefix(e, st, scopes, own, used, e.position) {
                lemma_args_code_appends(c.args@, s1, scopes, own, used);
            }
        },
        PengExpression::OperationCall { .. } => {
            lemma_operation_operands_appends(e, st, scopes, own, used);
        },
        PengExpression::Try { value, elsing } => {
            lemma_try_call_code_appends(*value, st, scopes, own, used, e.position);
            if let Some(s1) = try_call_code(*value, st, scopes, own, used, e.position) {
                let s2 = emit(emit(s1, PengInstruction::JumpIfTrue(usize::MAX), e.position), PengInstruction::Pop, e.position);
                if let Some(x) = elsing {
                    lemma_expression_code_appends(*x, s2, scopes, own, used);
                }
                let s3 = match elsing {
                    Some(x) => expression_code(*x, s2, scopes, own, used),
                    None => Some(
                        emit(
                            PengGenState { consts: const_pooled(s2.consts, PengCell::Nil), ..s2 },
                            PengInstruction::PushConst(const_index(s2.consts, PengCell::Nil)),
                            e.position,
                        ),
                    ),
                };
                if let Some(s4) = s3 {
                    if s4.code.len() <= usize::MAX {
                        let pc = patched(s4.code, s1.code.len() as usize, s4.code.len() as usize);
                        assert(forall|i: int| 0 <= i < st.code.len() ==> pc[i] == s4.code[i]);
                    }
                }
            }
        },
        _ => {},
    }
}

proof fn lemma_args_code_appends(
    args: Seq<PengPositionedFunctionCallArg>,
    st: PengGenState,
    scopes: Seq<Map<Seq<char>, usize>>,
    own: Map<PengNamePoolPtr, PengBinded<PengHeapPtr>>,
    used: Map<PengNamePoolPtr, PengBinded<PengHeapPtr>>,
)
    ensures
        args_code(args, st, scopes, own, used) matches Some(s) ==> (s.code.len() <= usize::MAX ==> appended(st, s)),
    decreases args, 0nat,
{
    if args.len() > 0 {
        assert(decreases_to!(args => args.drop_last()));
        lemma_args_code_appends(args.drop_last(), st, scopes, own, used);
        if let Some(s1) = args_code(args.drop_last(), st, scopes, own, used) {
            assert(decreases_to!(args => args.last().value.expression));
            lemma_expression_code_appends(args.last().value.expression, s1, scopes, own, used);
        }
    }
}

proof fn lemma_exprs_code_appends(
    values: Seq<PengPositionedExpression>,
    st: PengGenState,
    scopes: Seq<Map<Seq<char>, usize>>,
    own: Map<PengNamePoolPtr, PengBinded<PengHeapPtr>>,
    used: Map<PengNamePoolPtr, PengBinded<PengHeapPtr>>,
)
    ensures
        exprs_code(values, st, scopes, own, used) matches Some(s) ==> (s.code.len() <= usize::MAX ==> appended(st, s)),
    decreases values, 0nat,
{
    if values.len() > 0 {
        assert(decreases_to!(values => values.drop_last()));
        lemma_exprs_code_appends(values.drop_last(), st, scopes, own, used);
        if let Some(s1) = exprs_code(values.drop_last(), st, scopes, own, used) {
            assert(decreases_to!(values => values.last()));
            lemma_expression_code_appends(values.last(), s1, scopes, own, used);
        }
    }
}

proof fn lemma_fields_code_appends(
    fields: Seq<PengObjectFieldLiteral>,
    st: PengGenState,
    scopes: Seq<Map<Seq<char>, usize>>,
    own: Map<PengNamePoolPtr, PengBinded<PengHeapPtr>>,
    used: Map<PengNamePoolPtr, PengBinded<PengHeapPtr>>,
)
    ensures
        fields_code(fields, st, scopes, own, used) matches Some(s) ==> (s.code.len() <= usize::MAX ==> appended(st, s)),
    decreases fields, 0nat,
{
    if fields.len() > 0 {
        assert(decreases_to!(fields => fields.drop_last()));
        lemma_fields_code_appends(fields.drop_last(), st, scopes, own, used);
        if let Some(s1) = fields_code(fields.drop_last(), st, scopes, own, used) {
            let f = fields.last();
            let s2 = emit(s1, PengInstruction::Duplicate, f.name.position);
            assert(decreases_to!(fields => fields.last().value));
            lemma_expression_code_appends(f.value, with_name(s2, f.name.value@), scopes, own, used);
        }
    }
}

proof fn lemma_method_code_appends(
    c: crate::parser::ast::PengMethodCallExpression,
    st: PengGenState,
    scopes: Seq<Map<Seq<char>, usize>>,
    own: Map<PengNamePoolPtr, PengBinded<PengHeapPtr>>,
    used: Map<PengNamePoolPtr, PengBinded<PengHeapPtr>>,
    pos: PengPosition,
)
    ensures
        method_code(c, st, scopes, own, used, pos) matches Some(s) ==> (s.code.len() <= usize::MAX ==> appended(st, s)),
    decreases c, 0nat,
{
    let local = st.locals as usize;
    let s0 = emit(PengGenState { locals: st.locals + 1, ..st }, PengInstruction::ReserveLocal(local), pos);
    lemma_expression_code_appends(*c.object, s0, scopes, own, used);
}

proof fn lemma_method_prefix_appends(
    call: PengPositionedExpression,
    st: PengGenState,
    scopes: Seq<Map<Seq<char>, usize>>,
    own: Map<PengNamePoolPtr, PengBinded<PengHeapPtr>>,
    used: Map<PengNamePoolPtr, PengBinded<PengHeapPtr>>,
    pos: PengPosition,
)
    ensures
        method_prefix(call, st, scopes, own, used, pos) matches Some(s) ==> (s.code.len() <= usize::MAX ==> appended(st, s)),
    decreases call, 1nat,
{
    if let PengExpression::MethodCall(c) = call.value {
        lemma_method_code_appends(c, st, scopes, own, used, pos);
    }
}

proof fn lemma_operation_operands_appends(
    call: PengPositionedExpression,
    st: PengGenState,
    scopes: Seq<Map<Seq<char>, usize>>,
    own: Map<PengNamePoolPtr, PengBinded<PengHeapPtr>>,
    used: Map<PengNamePoolPtr, PengBinded<PengHeapPtr>>,
)
    ensures
        operation_operands(call, st, scopes, own, used) matches Some(s) ==> (s.code.len() <= usize::MAX ==> appended(st, s)),
    decreases call, 1nat,
{
    if let PengExpression::OperationCall { left, operation, right } = call.value {
        lemma_expression_code_appends(*operation, st, scopes, own, used);
        if let Some(s1) = expression_code(*operation, st, scopes, own, used) {
            lemma_expression_code_appends(*left, s1, scopes, own, used);
            if let Some(s2) = expression_code(*left, s1, scopes, own, used) {
                lemma_expression_code_appends(*right, s2, scopes, own, used);
            }
        }
    }
}

proof fn lemma_try_call_code_appends(
    value: PengPositionedExpression,
    st: PengGenState,
    scopes: Seq<Map<Seq<char>, usize>>,
    own: Map<PengNamePoolPtr, PengBinded<PengHeapPtr>>,
    used: Map<PengNamePoolPtr, PengBinded<PengHeapPtr>>,
    pos: PengPosition,
)
    ensures
        try_call_code(value, st, scopes, own, used, pos) matches Some(s) ==> (s.code.len() <= usize::MAX ==> appended(st, s)),
    decreases value, 2nat,
{
    match value.value {
        PengExpression::FuncCall(c) => {
            lemma_expression_code_appends(*c.function, st, scopes, own, used);
            if let Some(s1) = expression_code(*c.function, st, scopes, own, used) {
                lemma_args_code_appends(c.args@, s1, scopes, own, used);
            }
        },
        PengExpression::MethodCall(c) => {
            lemma_method_prefix_appends(value, st, scopes, own, used, pos);
            if let Some(s1) = method_prefix(value, st, scopes, own, used, pos) {
                lemma_args_code_appends(c.args@, s1, scopes, own, used);
            }
        },
        PengExpression::OperationCall { .. } => {
            lemma_operation_operands_appends(value, st, scopes, own, used);
        },
        _ => {},
    }
}

/// In `l && r` the jump that follows the left side is taken exactly when the left side is
/// false, and in `l || r` exactly when it is true; when it is taken it goes to the end of
/// the expression's code, past the right side, and otherwise the code goes on in order.
pub proof fn lemma_short_circuit_jumps(
    e: PengPositionedExpression,
    st: PengGenState,
    scopes: Seq<Map<Seq<char>, usize>>,
    own: Map<PengNamePoolPtr, PengBinded<PengHeapPtr>>,
    used: Map<PengNamePoolPtr, PengBinded<PengHeapPtr>>,
    t0: PengCallStack,
    t1: PengCallStack,
    frame_base: usize,
    b: bool,
    res: Result<PengStackStep, PengError>,
)
    requires
        e.value is Binary,
        e.value->Binary_operator == PengBinaryOperator::ShortCircuitAnd || e.value->Binary_operator
            == PengBinaryOperator::ShortCircuitOr,
        expression_code(e, st, scopes, own, used) is Some,
        expression_code(e, st, scopes, own, used)->0.code.len() <= usize::MAX,
        t0.stack@.len() >= 1,
        t0.frames@.len() >= 1,
        t0.stack@.last().bound() == PengCell::Bool(b),
        stack_instruction_effect(
            t0,
            t1,
            expression_code(e, st, scopes, own, used)->0.code[expression_code(
                *e.value->Binary_left,
                st,
                scopes,
                own,
                used,
            )->0.code.len() + 1 as int],
            frame_base,
            res,
        ),
    ensures
        res matches Ok(PengStackStep::Done),
        t1.stack@ == t0.stack@.drop_last(),
        b == (e.value->Binary_operator == PengBinaryOperator::ShortCircuitOr) ==> jumped(
            t0.frames@,
            t1.frames@,
            expression_code(e, st, scopes, own, used)->0.code.len() as usize,
        ),
        b != (e.value->Binary_operator == PengBinaryOperator::ShortCircuitOr) ==> t1.frames@ == t0.frames@,
{
    let left = *e.value->Binary_left;
    let right = *e.value->Binary_right;
    let operator = e.value->Binary_operator;
    let s1 = expression_code(left, st, scopes, own, used)->0;
    let jump = if operator == PengBinaryOperator::ShortCircuitAnd {
        PengInstruction::JumpIfFalse(usize::MAX)
    } else {
        PengInstruction::JumpIfTrue(usize::MAX)
    };
    let s2 = emit(emit(emit(s1, PengInstruction::Duplicate, e.position), jump, e.position), PengInstruction::Pop, e.position);
    let s3 = expression_code(right, s2, scopes, own, used)->0;
    let s = expression_code(e, st, scopes, own, used)->0;
    assert(s.code == patched(s3.code, (s1.code.len() + 1) as usize, s3.code.len() as usize));
    lemma_expression_code_appends(right, s2, scopes, own, used);
    assert(s2.code[s1.code.len() + 1 as int] == jump);
    assert(s3.code[s1.code.len() + 1 as int] == jump);
    assert(s.code[s1.code.len() + 1 as int] == retarget(jump, s3.code.len() as usize));
    let ts = t0.stack@;
    assert(ts.last() == ts[ts.len() - 1]);
}

/// Folding `!` and `-` on literals gives what they compute: the negation of a boolean, the
/// opposite of a signed integer whenever it fits, and no fold for the smallest integer.
pub proof fn lemma_unary_folding_computes(x: bool, a: isize)
    ensures
        crate::optimizer::constant_folding::fold_unary_spec(PengUnaryOperator::Not, PengLiteral::Bool(x)) == Some(
            PengLiteral::Bool(!x),
        ),
        a != isize::MIN ==> (crate::optimizer::constant_folding::fold_unary_spec(
            PengUnaryOperator::Negate,
            PengLiteral::Int(a),
        ) matches Some(PengLiteral::Int(v)) && v + a == 0),
        a == isize::MIN ==> crate::optimizer::constant_folding::fold_unary_spec(PengUnaryOperator::Negate, PengLiteral::Int(a))
            is None,
{
}

} // verus!
