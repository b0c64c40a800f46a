use vstd::prelude::*;
use crate::error::PengError;
use crate::optimizer::constant_folding::literal_expression_spec;
use crate::parser::ast::{
    PengBinaryOperator, PengExpression, PengLiteral, PengPositionedExpression, PengUnaryOperator,
};
use crate::position::PengPosition;
use crate::positioned::PengPositioned;

verus! {

/// The boolean an expression is, if it is a boolean literal.
pub open spec fn bool_value(e: PengPositionedExpression) -> Option<bool> {
    match e.value {
        PengExpression::Literal(l) => match l.value {
            PengLiteral::Bool(v) => Some(v),
            _ => None,
        },
        _ => None,
    }
}

/// An expression known to give a boolean: a boolean literal, a negation, or a logical or
/// comparison operation.
pub open spec fn known_bool(e: PengExpression) -> bool {
    match e {
        PengExpression::Literal(l) => l.value is Bool,
        PengExpression::Unary { operator, .. } => operator == PengUnaryOperator::Not,
        PengExpression::Binary { operator, .. } => match operator {
            PengBinaryOperator::ShortCircuitAnd | PengBinaryOperator::ShortCircuitOr
            | PengBinaryOperator::NonShortCircuitAnd | PengBinaryOperator::NonShortCircuitOr
            | PengBinaryOperator::Equals | PengBinaryOperator::NotEquals
            | PengBinaryOperator::GreaterThan | PengBinaryOperator::GreaterEqualsThan
            | PengBinaryOperator::LessThan | PengBinaryOperator::LessEqualsThan => true,
            _ => false,
        },
        _ => false,
    }
}

pub open spec fn bool_expression(v: bool, position: PengPosition) -> PengPositionedExpression {
    literal_expression_spec(PengLiteral::Bool(v), position)
}

pub open spec fn not_of(e: PengPositionedExpression, position: PengPosition) -> PengPositionedExpression {
    PengPositioned {
        position,
        value: PengExpression::Unary { operator: PengUnaryOperator::Not, value: Box::new(e) },
    }
}

pub open spec fn binary_of(
    l: PengPositionedExpression,
    op: PengBinaryOperator,
    r: PengPositionedExpression,
    position: PengPosition,
) -> PengPositionedExpression {
    PengPositioned {
        position,
        value: PengExpression::Binary { left: Box::new(l), operator: op, right: Box::new(r) },
    }
}

/// `!v` simplified: a literal is negated, a double negation of a known boolean is
/// dropped; otherwise the negation stays, its operand written at `position` unless it
/// was itself a negation.
pub open spec fn simplify_not(v: PengPositionedExpression, position: PengPosition) -> PengPositionedExpression {
    match bool_value(v) {
        Some(b) => bool_expression(!b, position),
        None => match v.value {
            PengExpression::Unary { operator: PengUnaryOperator::Not, value: inner } => if known_bool(inner.value) {
                *inner
            } else {
                not_of(v, position)
            },
            other => not_of(PengPositioned { position, value: other }, position),
        },
    }
}

/// `l op r` simplified, for the logical operators and `==`, `!=`: a literal that decides
/// the result or that does not change it goes away, when the other side is a known
/// boolean (`false && x` is `false` whatever `x` is).
pub open spec fn simplify_binary_spec(
    l: PengPositionedExpression,
    op: PengBinaryOperator,
    r: PengPositionedExpression,
    position: PengPosition,
) -> PengPositionedExpression {
    let kept = binary_of(l, op, r, position);
    match op {
        PengBinaryOperator::ShortCircuitAnd => if bool_value(l) == Some(false) {
            bool_expression(false, position)
        } else if bool_value(l) == Some(true) && known_bool(r.value) {
            r
        } else if bool_value(r) == Some(true) && known_bool(l.value) {
            l
        } else {
            kept
        },
        PengBinaryOperator::ShortCircuitOr => if bool_value(l) == Some(true) {
            bool_expression(true, position)
        } else if bool_value(l) == Some(false) && known_bool(r.value) {
            r
        } else if bool_value(r) == Some(false) && known_bool(l.value) {
            l
        } else {
            kept
        },
        PengBinaryOperator::NonShortCircuitAnd => if bool_value(l) == Some(true) && known_bool(r.value) {
            r
        } else if bool_value(r) == Some(true) && known_bool(l.value) {
            l
        } else {
            kept
        },
        PengBinaryOperator::NonShortCircuitOr => if bool_value(l) == Some(false) && known_bool(r.value) {
            r
        } else if bool_value(r) == Some(false) && known_bool(l.value) {
            l
        } else {
            kept
        },
        PengBinaryOperator::Equals | PengBinaryOperator::NotEquals => {
            let invert = op == PengBinaryOperator::NotEquals;
            if bool_value(l) is Some && known_bool(r.value) {
                if bool_value(l) == Some(!invert) {
                    r
                } else {
                    not_of(r, position)
                }
            } else if bool_value(r) is Some && known_bool(l.value) {
                if bool_value(r) == Some(!invert) {
                    l
                } else {
                    not_of(l, position)
                }
            } else {
                kept
            }
        },
        _ => kept,
    }
}

/// What simplification gives on an expression: only negations and binary operations at
/// its top are rewritten.
pub open spec fn simplify_spec(e: PengPositionedExpression) -> PengPositionedExpression {
    match e.value {
        PengExpression::Unary { operator, value } => if operator == PengUnaryOperator::Not {
            simplify_not(*value, e.position)
        } else {
            e
        },
        PengExpression::Binary { left, operator, right } => simplify_binary_spec(
            *left,
            operator,
            *right,
            e.position,
        ),
        _ => e,
    }
}

fn bool_literal_value(expression: &PengPositionedExpression) -> (res: Option<bool>)
    ensures
        res == bool_value(*expression),
{
    match &expression.value {
        PengExpression::Literal(literal) => match &literal.value {
            PengLiteral::Bool(v) => Some(*v),
            _ => None,
        },
        _ => None,
    }
}

fn bool_literal_expression(value: bool, position: PengPosition) -> (res: PengPositionedExpression)
    ensures
        res == bool_expression(value, position),
{
    PengPositioned {
        position,
        value: PengExpression::Literal(PengPositioned { position, value: PengLiteral::Bool(value) }),
    }
}

fn not_expression(expression: PengPositionedExpression, position: PengPosition) -> (res:
    PengPositionedExpression)
    ensures
        res == not_of(expression, position),
{
    PengPositioned {
        position,
        value: PengExpression::Unary { operator: PengUnaryOperator::Not, value: Box::new(expression) },
    }
}

fn is_known_bool_expression(expression: &PengExpression) -> (res: bool)
    ensures
        res == known_bool(*expression),
{
    match expression {
        PengExpression::Literal(literal) => match &literal.value {
            PengLiteral::Bool(_) => true,
            _ => false,
        },
        PengExpression::Unary { operator: PengUnaryOperator::Not, .. } => true,
        PengExpression::Binary { operator, .. } => match operator {
            PengBinaryOperator::ShortCircuitAnd | PengBinaryOperator::ShortCircuitOr
            | PengBinaryOperator::NonShortCircuitAnd | PengBinaryOperator::NonShortCircuitOr
            | PengBinaryOperator::Equals | PengBinaryOperator::NotEquals
            | PengBinaryOperator::GreaterThan | PengBinaryOperator::GreaterEqualsThan
            | PengBinaryOperator::LessThan | PengBinaryOperator::LessEqualsThan => true,
            _ => false,
        },
        _ => false,
    }
}

fn simplify_unary(operator: PengUnaryOperator, value: PengPositionedExpression, position: PengPosition) -> (res:
    PengPositionedExpression)
    ensures
        res == simplify_spec(
            PengPositioned {
                position,
                value: PengExpression::Unary { operator, value: Box::new(value) },
            },
        ),
{
    match operator {
        PengUnaryOperator::Not => {
            match bool_literal_value(&value) {
                Some(v) => {
                    return bool_literal_expression(!v, position);
                },
                None => {},
            }
            let inner_position = value.position;
            match value.value {
                PengExpression::Unary { operator: PengUnaryOperator::Not, value: inner } => {
                    if is_known_bool_expression(&inner.value) {
                        return *inner;
                    }
                    not_expression(
                        PengPositioned {
                            position: inner_position,
                            value: PengExpression::Unary { operator: PengUnaryOperator::Not, value: inner },
                        },
                        position,
                    )
                },
                other => not_expression(PengPositioned { position, value: other }, position),
            }
        },
        PengUnaryOperator::Negate => PengPositioned {
            position,
            value: PengExpression::Unary { operator: PengUnaryOperator::Negate, value: Box::new(value) },
        },
    }
}

fn simplify_binary(
    left: PengPositionedExpression,
    operator: PengBinaryOperator,
    right: PengPositionedExpression,
    position: PengPosition,
) -> (res: PengPositionedExpression)
    ensures
        res == simplify_binary_spec(left, operator, right, position),
{
    match operator {
        PengBinaryOperator::ShortCircuitAnd => simplify_short_circuit_and(left, right, position),
        PengBinaryOperator::ShortCircuitOr => simplify_short_circuit_or(left, right, position),
        PengBinaryOperator::NonShortCircuitAnd => simplify_non_short_circuit_and(left, right, position),
        PengBinaryOperator::NonShortCircuitOr => simplify_non_short_circuit_or(left, right, position),
        PengBinaryOperator::Equals => simplify_bool_equals(left, right, position, false),
        PengBinaryOperator::NotEquals => simplify_bool_equals(left, right, position, true),
        _ => PengPositioned {
            position,
            value: PengExpression::Binary { left: Box::new(left), operator, right: Box::new(right) },
        },
    }
}

fn simplify_short_circuit_and(
    left: PengPositionedExpression,
    right: PengPositionedExpression,
    position: PengPosition,
) -> (res: PengPositionedExpression)
    ensures
        res == simplify_binary_spec(left, PengBinaryOperator::ShortCircuitAnd, right, position),
{
    match bool_literal_value(&left) {
        Some(false) => {
            return bool_literal_expression(false, position);
        },
        Some(true) => {
            if is_known_bool_expression(&right.value) {
                return right;
            }
        },
        None => {},
    }
    match bool_literal_value(&right) {
        Some(true) => {
            if is_known_bool_expression(&left.value) {
                return left;
            }
        },
        _ => {},
    }
    PengPositioned {
        position,
        value: PengExpression::Binary {
            left: Box::new(left),
            operator: PengBinaryOperator::ShortCircuitAnd,
            right: Box::new(right),
        },
    }
}

fn simplify_short_circuit_or(
    left: PengPositionedExpression,
    right: PengPositionedExpression,
    position: PengPosition,
) -> (res: PengPositionedExpression)
    ensures
        res == simplify_binary_spec(left, PengBinaryOperator::ShortCircuitOr, right, position),
{
    match bool_literal_value(&left) {
        Some(true) => {
            return bool_literal_expression(true, position);
        },
        Some(false) => {
            if is_known_bool_expression(&right.value) {
                return right;
            }
        },
        None => {},
    }
    match bool_literal_value(&right) {
        Some(false) => {
            if is_known_bool_expression(&left.value) {
                return left;
            }
        },
        _ => {},
    }
    PengPositioned {
        position,
        value: PengExpression::Binary {
            left: Box::new(left),
            operator: PengBinaryOperator::ShortCircuitOr,
            right: Box::new(right),
        },
    }
}

fn simplify_non_short_circuit_and(
    left: PengPositionedExpression,
    right: PengPositionedExpression,
    position: PengPosition,
) -> (res: PengPositionedExpression)
    ensures
        res == simplify_binary_spec(left, PengBinaryOperator::NonShortCircuitAnd, right, position),
{
    match bool_literal_value(&left) {
        Some(true) => {
            if is_known_bool_expression(&right.value) {
                return right;
            }
        },
        _ => {},
    }
    match bool_literal_value(&right) {
        Some(true) => {
            if is_known_bool_expression(&left.value) {
                return left;
            }
        },
        _ => {},
    }
    PengPositioned {
        position,
        value: PengExpression::Binary {
            left: Box::new(left),
            operator: PengBinaryOperator::NonShortCircuitAnd,
            right: Box::new(right),
        },
    }
}

fn simplify_non_short_circuit_or(
    left: PengPositionedExpression,
    right: PengPositionedExpression,
    position: PengPosition,
) -> (res: PengPositionedExpression)
    ensures
        res == simplify_binary_spec(left, PengBinaryOperator::NonShortCircuitOr, right, position),
{
    match bool_literal_value(&left) {
        Some(false) => {
            if is_known_bool_expression(&right.value) {
                return right;
            }
        },
        _ => {},
    }
    match bool_literal_value(&right) {
        Some(false) => {
            if is_known_bool_expression(&left.value) {
                return left;
            }
        },
        _ => {},
    }
    PengPositioned {
        position,
        value: PengExpression::Binary {
            left: Box::new(left),
            operator: PengBinaryOperator::NonShortCircuitOr,
            right: Box::new(right),
        },
    }
}

/// `left == right`, or `left != right` where `invert` holds.
fn simplify_bool_equals(
    left: PengPositionedExpression,
    right: PengPositionedExpression,
    position: PengPosition,
    invert: bool,
) -> (res: PengPositionedExpression)
    ensures
        res == simplify_binary_spec(
            left,
            if invert {
                PengBinaryOperator::NotEquals
            } else {
                PengBinaryOperator::Equals
            },
            right,
            position,
        ),
{
    match bool_literal_value(&left) {
        Some(v) => {
            if is_known_bool_expression(&right.value) {
                if v {
                    if invert {
                        return not_expression(right, position);
                    }
                    return right;
                }
                if invert {
                    return right;
                }
                return not_expression(right, position);
            }
        },
        None => {},
    }
    match bool_literal_value(&right) {
        Some(v) => {
            if is_known_bool_expression(&left.value) {
                if v {
                    if invert {
                        return not_expression(left, position);
                    }
                    return left;
                }
                if invert {
                    return left;
                }
                return not_expression(left, position);
            }
        },
        None => {},
    }
    let operator = if invert {
        PengBinaryOperator::NotEquals
    } else {
        PengBinaryOperator::Equals
    };
    PengPositioned {
        position,
        value: PengExpression::Binary { left: Box::new(left), operator, right: Box::new(right) },
    }
}

/// Simplifies a boolean negation or a logical or equality operation at the top of an
/// expression, where a literal operand decides or does not change its value.
pub fn simplify_expression(expression: PengPositionedExpression) -> (res: Result<
    PengPositionedExpression,
    PengError,
>)
    ensures
        res matches Ok(x) && x == simplify_spec(expression),
{
    let position = expression.position;
    match expression.value {
        PengExpression::Unary { operator, value } => Ok(simplify_unary(operator, *value, position)),
        PengExpression::Binary { left, operator, right } => Ok(
            simplify_binary(*left, operator, *right, position),
        ),
        value => Ok(PengPositioned { position, value }),
    }
}

/// The truth value of `e` when every part of it that is not built from boolean literals
/// and the logical operators (`!`, `&&`, `||`, `&`, `|`, `==`, `!=`) has the truth value
/// `atom` gives it: a comparison, a name, a call, or any other value.
pub open spec fn truth(e: PengPositionedExpression, atom: spec_fn(PengExpression) -> bool) -> bool
    decreases e,
{
    match e.value {
        PengExpression::Literal(l) => match l.value {
            PengLiteral::Bool(v) => v,
            _ => atom(e.value),
        },
        PengExpression::Unary { operator, value } => if operator == PengUnaryOperator::Not {
            !truth(*value, atom)
        } else {
            atom(e.value)
        },
        PengExpression::Binary { left, operator, right } => match operator {
            PengBinaryOperator::ShortCircuitAnd | PengBinaryOperator::NonShortCircuitAnd => truth(*left, atom) && truth(
                *right,
                atom,
            ),
            PengBinaryOperator::ShortCircuitOr | PengBinaryOperator::NonShortCircuitOr => truth(*left, atom) || truth(
                *right,
                atom,
            ),
            PengBinaryOperator::Equals => truth(*left, atom) == truth(*right, atom),
            PengBinaryOperator::NotEquals => truth(*left, atom) != truth(*right, atom),
            _ => atom(e.value),
        },
        _ => atom(e.value),
    }
}

/// Boolean simplification keeps the meaning of an expression: whatever truth values its
/// comparisons, names and other parts have, the simplified expression is true exactly
/// when the original one is (so `x || false` stays `x`, and never becomes `false`).
pub proof fn lemma_simplification_keeps_truth(e: PengPositionedExpression, atom: spec_fn(PengExpression) -> bool)
    ensures
        truth(simplify_spec(e), atom) == truth(e, atom),
{
    match e.value {
        PengExpression::Unary { operator, value } => {
            if operator == PengUnaryOperator::Not {
                let v = *value;
                match bool_value(v) {
                    Some(b) => {
                        assert(truth(bool_expression(!b, e.position), atom) == !b);
                    },
                    None => {
                        match v.value {
                            PengExpression::Unary { operator: PengUnaryOperator::Not, value: inner } => {
                                assert(truth(v, atom) == !truth(*inner, atom));
                            },
                            other => {
                                let w = PengPositioned { position: e.position, value: other };
                                assert(truth(w, atom) == truth(v, atom));
                            },
                        }
                    },
                }
                assert(truth(simplify_not(v, e.position), atom) == !truth(v, atom));
            }
        },
        PengExpression::Binary { left, operator, right } => {
            let l = *left;
            let r = *right;
            assert(truth(binary_of(l, operator, r, e.position), atom) == truth(e, atom));
            assert(truth(not_of(l, e.position), atom) == !truth(l, atom));
            assert(truth(not_of(r, e.position), atom) == !truth(r, atom));
        },
        _ => {},
    }
}

} // verus!
