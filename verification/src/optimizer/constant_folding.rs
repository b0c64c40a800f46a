use vstd::prelude::*;
use vstd::string::StringExecFns;
use crate::error::PengError;
use crate::parser::ast::{
    PengBinaryOperator, PengExpression, PengLiteral, PengPositionedExpression, PengUnaryOperator,
};
use crate::position::PengPosition;
use crate::positioned::PengPositioned;

verus! {

// ---------------------------------------------------------------------------
// Integer arithmetic as the language defines it.
// ---------------------------------------------------------------------------

/// `b` multiplied by itself `e` times.
pub open spec fn power(b: int, e: nat) -> int
    decreases e,
{
    if e == 0 {
        1
    } else {
        b * power(b, (e - 1) as nat)
    }
}

pub open spec fn abs(x: int) -> int {
    if x < 0 {
        -x
    } else {
        x
    }
}

/// Division that rounds toward zero.
pub open spec fn trunc_div(a: int, b: int) -> int {
    if (a < 0) == (b < 0) {
        abs(a) / abs(b)
    } else {
        -(abs(a) / abs(b))
    }
}

/// The remainder of `trunc_div`: it takes the sign of `a`.
pub open spec fn trunc_rem(a: int, b: int) -> int {
    if a < 0 {
        -(abs(a) % abs(b))
    } else {
        abs(a) % abs(b)
    }
}

pub open spec fn int_literal(x: int) -> Option<PengLiteral> {
    if isize::MIN <= x <= isize::MAX {
        Some(PengLiteral::Int(x as isize))
    } else {
        None
    }
}

pub open spec fn uint_literal(x: int) -> Option<PengLiteral> {
    if 0 <= x <= usize::MAX {
        Some(PengLiteral::Uint(x as usize))
    } else {
        None
    }
}

pub open spec fn byte_literal(x: int) -> Option<PengLiteral> {
    if 0 <= x <= u8::MAX {
        Some(PengLiteral::Byte(x as u8))
    } else {
        None
    }
}

/// What an arithmetic operator gives on two integer values, as a mathematical integer,
/// or `None` where it is undefined (division by zero, a negative or too large exponent).
pub open spec fn arith(op: PengBinaryOperator, a: int, b: int) -> Option<int> {
    match op {
        PengBinaryOperator::Add => Some(a + b),
        PengBinaryOperator::Subtract => Some(a - b),
        PengBinaryOperator::Multiply => Some(a * b),
        PengBinaryOperator::Divide => if b == 0 {
            None
        } else {
            Some(trunc_div(a, b))
        },
        PengBinaryOperator::Remainder => if b == 0 {
            None
        } else {
            Some(trunc_rem(a, b))
        },
        PengBinaryOperator::Power => if 0 <= b <= u32::MAX {
            Some(power(a, b as nat))
        } else {
            None
        },
        _ => None,
    }
}

pub open spec fn is_arith(op: PengBinaryOperator) -> bool {
    op == PengBinaryOperator::Add || op == PengBinaryOperator::Subtract || op
        == PengBinaryOperator::Multiply || op == PengBinaryOperator::Divide || op
        == PengBinaryOperator::Remainder || op == PengBinaryOperator::Power
}

pub open spec fn is_comparison(op: PengBinaryOperator) -> bool {
    op == PengBinaryOperator::GreaterThan || op == PengBinaryOperator::GreaterEqualsThan || op
        == PengBinaryOperator::LessThan || op == PengBinaryOperator::LessEqualsThan
}

pub open spec fn compare(op: PengBinaryOperator, a: int, b: int) -> bool {
    match op {
        PengBinaryOperator::GreaterThan => a > b,
        PengBinaryOperator::GreaterEqualsThan => a >= b,
        PengBinaryOperator::LessThan => a < b,
        _ => a <= b,
    }
}

// ---------------------------------------------------------------------------
// What folding gives on literals.
// ---------------------------------------------------------------------------

/// The literal a unary operator gives on a literal, where it folds: `!` on booleans,
/// `-` on integers that stay in range, and `-` on floating-point values (held as bits,
/// negation flips the sign bit).
pub open spec fn fold_unary_spec(op: PengUnaryOperator, v: PengLiteral) -> Option<PengLiteral> {
    match op {
        PengUnaryOperator::Not => match v {
            PengLiteral::Bool(b) => Some(PengLiteral::Bool(!b)),
            _ => None,
        },
        PengUnaryOperator::Negate => match v {
            PengLiteral::Int(a) => int_literal(-a),
            PengLiteral::Float32(bits) => Some(PengLiteral::Float32(bits ^ 0x8000_0000u32)),
            PengLiteral::Float64(bits) => Some(PengLiteral::Float64(bits ^ 0x8000_0000_0000_0000u64)),
            _ => None,
        },
    }
}

/// Whether two literals are equal, where the language compares them here: nil, integers
/// of one kind, booleans and strings.
pub open spec fn literal_equality(l: PengLiteral, r: PengLiteral) -> Option<bool> {
    match (l, r) {
        (PengLiteral::Nil, PengLiteral::Nil) => Some(true),
        (PengLiteral::Int(a), PengLiteral::Int(b)) => Some(a == b),
        (PengLiteral::Uint(a), PengLiteral::Uint(b)) => Some(a == b),
        (PengLiteral::Byte(a), PengLiteral::Byte(b)) => Some(a == b),
        (PengLiteral::Bool(a), PengLiteral::Bool(b)) => Some(a == b),
        (PengLiteral::String(a), PengLiteral::String(b)) => Some(a@ == b@),
        _ => None,
    }
}

/// The literal a binary operator gives on two literals, other than the joining of two
/// strings (see `binary_folds_to`).
pub open spec fn fold_binary_spec(op: PengBinaryOperator, l: PengLiteral, r: PengLiteral) -> Option<
    PengLiteral,
> {
    if is_arith(op) {
        match (l, r) {
            (PengLiteral::Int(a), PengLiteral::Int(b)) => if op == PengBinaryOperator::Remainder && a
                == isize::MIN && b == -1 {
                None
            } else {
                match arith(op, a as int, b as int) {
                    Some(v) => int_literal(v),
                    None => None,
                }
            },
            (PengLiteral::Uint(a), PengLiteral::Uint(b)) => match arith(op, a as int, b as int) {
                Some(v) => uint_literal(v),
                None => None,
            },
            (PengLiteral::Byte(a), PengLiteral::Byte(b)) => match arith(op, a as int, b as int) {
                Some(v) => byte_literal(v),
                None => None,
            },
            _ => None,
        }
    } else if is_comparison(op) {
        match (l, r) {
            (PengLiteral::Int(a), PengLiteral::Int(b)) => Some(PengLiteral::Bool(compare(op, a as int, b as int))),
            (PengLiteral::Uint(a), PengLiteral::Uint(b)) => Some(PengLiteral::Bool(compare(op, a as int, b as int))),
            (PengLiteral::Byte(a), PengLiteral::Byte(b)) => Some(PengLiteral::Bool(compare(op, a as int, b as int))),
            _ => None,
        }
    } else {
        match op {
            PengBinaryOperator::ShortCircuitAnd | PengBinaryOperator::NonShortCircuitAnd => match (l, r) {
                (PengLiteral::Bool(a), PengLiteral::Bool(b)) => Some(PengLiteral::Bool(a && b)),
                _ => None,
            },
            PengBinaryOperator::ShortCircuitOr | PengBinaryOperator::NonShortCircuitOr => match (l, r) {
                (PengLiteral::Bool(a), PengLiteral::Bool(b)) => Some(PengLiteral::Bool(a || b)),
                _ => None,
            },
            PengBinaryOperator::Equals => match literal_equality(l, r) {
                Some(v) => Some(PengLiteral::Bool(v)),
                None => None,
            },
            PengBinaryOperator::NotEquals => match literal_equality(l, r) {
                Some(v) => Some(PengLiteral::Bool(!v)),
                None => None,
            },
            _ => None,
        }
    }
}

/// `out` is what folding `l op r` gives: for two strings joined, a string holding the
/// characters of both; otherwise `fold_binary_spec`.
pub open spec fn binary_folds_to(
    op: PengBinaryOperator,
    l: PengLiteral,
    r: PengLiteral,
    out: Option<PengLiteral>,
) -> bool {
    if op == PengBinaryOperator::Concat {
        match (l, r) {
            (PengLiteral::String(a), PengLiteral::String(b)) => out matches Some(PengLiteral::String(s))
                && s@ == a@ + b@,
            _ => out is None,
        }
    } else {
        out == fold_binary_spec(op, l, r)
    }
}

/// The literal that an expression is, if it is one.
pub open spec fn literal_of(e: PengPositionedExpression) -> Option<PengLiteral> {
    match e.value {
        PengExpression::Literal(l) => Some(l.value),
        _ => None,
    }
}

/// The expression that is the literal `v`, written at `position`.
pub open spec fn literal_expression_spec(v: PengLiteral, position: PengPosition) -> PengPositionedExpression {
    PengPositioned {
        position,
        value: PengExpression::Literal(PengPositioned { position, value: v }),
    }
}

/// `x` is what folding gives on `e`: a unary or binary operation on literals becomes the
/// literal it evaluates to, at the operation's position, where it folds; anything else
/// is left as it is.
pub open spec fn folds_to(e: PengPositionedExpression, x: PengPositionedExpression) -> bool {
    match e.value {
        PengExpression::Unary { operator, value } => match literal_of(*value) {
            Some(v) => match fold_unary_spec(operator, v) {
                Some(r) => x == literal_expression_spec(r, e.position),
                None => x == e,
            },
            None => x == e,
        },
        PengExpression::Binary { left, operator, right } => match (literal_of(*left), literal_of(*right)) {
            (Some(a), Some(b)) => {
                ||| (binary_folds_to(operator, a, b, None) && x == e)
                ||| (x.value matches PengExpression::Literal(l) && binary_folds_to(operator, a, b, Some(l.value))
                    && x == literal_expression_spec(l.value, e.position))
            },
            _ => x == e,
        },
        _ => x == e,
    }
}

// ---------------------------------------------------------------------------
// Facts about powers.
// ---------------------------------------------------------------------------

proof fn lemma_power_abs(b: int, e: nat)
    ensures
        abs(power(b, e)) == power(abs(b), e),
    decreases e,
{
    if e > 0 {
        lemma_power_abs(b, (e - 1) as nat);
        let p = power(b, (e - 1) as nat);
        assert(abs(b * p) == abs(b) * abs(p)) by (nonlinear_arith);
    }
}

proof fn lemma_power_adds(b: int, e1: nat, e2: nat)
    ensures
        power(b, e1 + e2) == power(b, e1) * power(b, e2),
    decreases e1,
{
    if e1 > 0 {
        lemma_power_adds(b, (e1 - 1) as nat, e2);
        assert((e1 - 1) as nat + e2 == (e1 + e2 - 1) as nat);
        let p = power(b, (e1 - 1) as nat);
        let q = power(b, e2);
        assert(b * (p * q) == (b * p) * q) by (nonlinear_arith);
    }
}

/// A power of a base of at least 2 is at least 1, and at least 2 from the first power on.
proof fn lemma_power_grows(b: int, e: nat)
    requires
        b >= 2,
    ensures
        power(b, e) >= 1,
        e >= 1 ==> power(b, e) >= 2,
    decreases e,
{
    if e > 0 {
        lemma_power_grows(b, (e - 1) as nat);
        let p = power(b, (e - 1) as nat);
        assert(b * p >= 2) by (nonlinear_arith)
            requires
                b >= 2,
                p >= 1,
        ;
    }
}

/// Once a power of `a` (with `|a| >= 2`) has left `lo ..= hi`, every later power stays
/// outside, when the range is that of a signed type or the base is not negative.
proof fn lemma_power_escapes(a: int, k: nat, e: nat, lo: int, hi: int)
    requires
        abs(a) >= 2,
        k <= e,
        0 <= hi,
        lo == -hi - 1 || (lo == 0 && a >= 0),
        !(lo <= power(a, k) <= hi),
    ensures
        !(lo <= power(a, e) <= hi),
{
    if k < e {
        let d = (e - k) as nat;
        lemma_power_adds(a, k, d);
        assert(k + d == e);
        let p = power(a, k);
        let q = power(a, d);
        lemma_power_abs(a, d);
        lemma_power_grows(abs(a), d);
        assert(abs(q) >= 2);
        assert(abs(p * q) == abs(p) * abs(q)) by (nonlinear_arith);
        assert(abs(p) * abs(q) >= 2 * abs(p)) by (nonlinear_arith)
            requires
                abs(q) >= 2,
                abs(p) >= 0,
        ;
        if lo == 0 && a >= 0 {
            lemma_power_grows(a, k);
            lemma_power_grows(a, d);
            assert(p * q >= p) by (nonlinear_arith)
                requires
                    p >= 1,
                    q >= 2,
            ;
        }
    }
}

/// `a` to the power `e`, when that lies within `lo ..= hi`.
pub(crate) fn checked_power(a: i128, e: u32, lo: i128, hi: i128) -> (res: Option<i128>)
    requires
        0 <= hi,
        lo == -hi - 1 || (lo == 0 && a >= 0),
        1 <= hi,
    ensures
        res == (if lo <= power(a as int, e as nat) <= hi {
            Some(power(a as int, e as nat) as i128)
        } else {
            None
        }),
{
    if a == 0 || a == 1 || a == -1 {
        // The powers of 0, 1 and -1 are known without multiplying.
        if a == 0 {
            proof {
                reveal_with_fuel(power, 2);
                if e > 0 {
                    assert(power(0, e as nat) == 0 * power(0, (e - 1) as nat));
                }
            }
            return if e == 0 {
                Some(1)
            } else {
                Some(0)
            };
        }
        if a == 1 {
            proof {
                lemma_power_one(e as nat);
            }
            return Some(1);
        }
        proof {
            lemma_power_minus_one(e as nat);
        }
        if e % 2 == 0 {
            return Some(1);
        }
        if lo <= -1 {
            return Some(-1);
        }
        return None;
    }
    let mut acc: i128 = 1;
    let mut k: u32 = 0;
    while k < e
        invariant
            abs(a as int) >= 2,
            0 <= hi,
            lo == -hi - 1 || (lo == 0 && a >= 0),
            k <= e,
            acc == power(a as int, k as nat),
            lo <= acc <= hi,
        decreases e - k,
    {
        proof {
            assert(power(a as int, (k + 1) as nat) == a * power(a as int, k as nat));
            assert(a * acc == acc * a) by (nonlinear_arith);
        }
        match acc.checked_mul(a) {
            Some(p) => {
                if p < lo || p > hi {
                    proof {
                        lemma_power_escapes(a as int, (k + 1) as nat, e as nat, lo as int, hi as int);
                    }
                    return None;
                }
                acc = p;
                k = k + 1;
            },
            None => {
                proof {
                    lemma_power_escapes(a as int, (k + 1) as nat, e as nat, lo as int, hi as int);
                }
                return None;
            },
        }
    }
    Some(acc)
}

proof fn lemma_power_one(e: nat)
    ensures
        power(1, e) == 1,
    decreases e,
{
    if e > 0 {
        lemma_power_one((e - 1) as nat);
    }
}

proof fn lemma_power_minus_one(e: nat)
    ensures
        power(-1, e) == (if e % 2 == 0 {
            1int
        } else {
            -1int
        }),
    decreases e,
{
    if e > 0 {
        lemma_power_minus_one((e - 1) as nat);
    }
}

// ---------------------------------------------------------------------------
// Folding.
// ---------------------------------------------------------------------------

fn fold_unary(operator: &PengUnaryOperator, value: &PengLiteral) -> (res: Option<PengLiteral>)
    ensures
        res == fold_unary_spec(*operator, *value),
{
    match operator {
        PengUnaryOperator::Not => match value {
            PengLiteral::Bool(v) => Some(PengLiteral::Bool(!*v)),
            _ => None,
        },
        PengUnaryOperator::Negate => match value {
            PengLiteral::Int(v) => match 0isize.checked_sub(*v) {
                Some(n) => Some(PengLiteral::Int(n)),
                None => None,
            },
            PengLiteral::Float32(bits) => Some(PengLiteral::Float32(*bits ^ 0x8000_0000u32)),
            PengLiteral::Float64(bits) => Some(PengLiteral::Float64(*bits ^ 0x8000_0000_0000_0000u64)),
            _ => None,
        },
    }
}

fn fold_add(left: &PengLiteral, right: &PengLiteral) -> (res: Option<PengLiteral>)
    ensures
        res == fold_binary_spec(PengBinaryOperator::Add, *left, *right),
{
    match (left, right) {
        (PengLiteral::Int(a), PengLiteral::Int(b)) => match a.checked_add(*b) {
            Some(v) => Some(PengLiteral::Int(v)),
            None => None,
        },
        (PengLiteral::Uint(a), PengLiteral::Uint(b)) => match a.checked_add(*b) {
            Some(v) => Some(PengLiteral::Uint(v)),
            None => None,
        },
        (PengLiteral::Byte(a), PengLiteral::Byte(b)) => match a.checked_add(*b) {
            Some(v) => Some(PengLiteral::Byte(v)),
            None => None,
        },
        _ => None,
    }
}

fn fold_subtract(left: &PengLiteral, right: &PengLiteral) -> (res: Option<PengLiteral>)
    ensures
        res == fold_binary_spec(PengBinaryOperator::Subtract, *left, *right),
{
    match (left, right) {
        (PengLiteral::Int(a), PengLiteral::Int(b)) => match a.checked_sub(*b) {
            Some(v) => Some(PengLiteral::Int(v)),
            None => None,
        },
        (PengLiteral::Uint(a), PengLiteral::Uint(b)) => match a.checked_sub(*b) {
            Some(v) => Some(PengLiteral::Uint(v)),
            None => None,
        },
        (PengLiteral::Byte(a), PengLiteral::Byte(b)) => match a.checked_sub(*b) {
            Some(v) => Some(PengLiteral::Byte(v)),
            None => None,
        },
        _ => None,
    }
}

fn fold_multiply(left: &PengLiteral, right: &PengLiteral) -> (res: Option<PengLiteral>)
    ensures
        res == fold_binary_spec(PengBinaryOperator::Multiply, *left, *right),
{
    match (left, right) {
        (PengLiteral::Int(a), PengLiteral::Int(b)) => match a.checked_mul(*b) {
            Some(v) => Some(PengLiteral::Int(v)),
            None => None,
        },
        (PengLiteral::Uint(a), PengLiteral::Uint(b)) => match a.checked_mul(*b) {
            Some(v) => Some(PengLiteral::Uint(v)),
            None => None,
        },
        (PengLiteral::Byte(a), PengLiteral::Byte(b)) => match a.checked_mul(*b) {
            Some(v) => Some(PengLiteral::Byte(v)),
            None => None,
        },
        _ => None,
    }
}

fn fold_divide(left: &PengLiteral, right: &PengLiteral) -> (res: Option<PengLiteral>)
    ensures
        res == fold_binary_spec(PengBinaryOperator::Divide, *left, *right),
{
    match (left, right) {
        (PengLiteral::Int(a), PengLiteral::Int(b)) => match a.checked_div(*b) {
            Some(v) => Some(PengLiteral::Int(v)),
            None => None,
        },
        (PengLiteral::Uint(a), PengLiteral::Uint(b)) => match a.checked_div(*b) {
            Some(v) => Some(PengLiteral::Uint(v)),
            None => None,
        },
        (PengLiteral::Byte(a), PengLiteral::Byte(b)) => match a.checked_div(*b) {
            Some(v) => Some(PengLiteral::Byte(v)),
            None => None,
        },
        _ => None,
    }
}

fn fold_remainder(left: &PengLiteral, right: &PengLiteral) -> (res: Option<PengLiteral>)
    ensures
        res == fold_binary_spec(PengBinaryOperator::Remainder, *left, *right),
{
    match (left, right) {
        (PengLiteral::Int(a), PengLiteral::Int(b)) => {
            proof {
                if *b != 0 {
                    lemma_rem_bounds(*a as int, *b as int);
                }
            }
            match a.checked_rem(*b) {
                Some(v) => Some(PengLiteral::Int(v)),
                None => None,
            }
        },
        (PengLiteral::Uint(a), PengLiteral::Uint(b)) => match a.checked_rem(*b) {
            Some(v) => Some(PengLiteral::Uint(v)),
            None => None,
        },
        (PengLiteral::Byte(a), PengLiteral::Byte(b)) => match a.checked_rem(*b) {
            Some(v) => Some(PengLiteral::Byte(v)),
            None => None,
        },
        _ => None,
    }
}

pub(crate) proof fn lemma_rem_bounds(a: int, b: int)
    requires
        b != 0,
    ensures
        0 <= abs(a) % abs(b) < abs(b),
        abs(a) % abs(b) <= abs(a),
{
    let x = abs(a);
    let y = abs(b);
    assert(0 <= x % y < y) by (nonlinear_arith)
        requires
            y > 0,
    ;
    assert(x % y <= x) by (nonlinear_arith)
        requires
            y > 0,
            x >= 0,
    ;
}

fn fold_power(left: &PengLiteral, right: &PengLiteral) -> (res: Option<PengLiteral>)
    ensures
        res == fold_binary_spec(PengBinaryOperator::Power, *left, *right),
{
    match (left, right) {
        (PengLiteral::Int(a), PengLiteral::Int(b)) => {
            let e = *b as i128;
            if e < 0 || e > 0xffff_ffffi128 {
                return None;
            }
            match checked_power(*a as i128, e as u32, isize::MIN as i128, isize::MAX as i128) {
                Some(p) => Some(PengLiteral::Int(p as isize)),
                None => None,
            }
        },
        (PengLiteral::Uint(a), PengLiteral::Uint(b)) => {
            let e = *b as u128;
            if e > 0xffff_ffffu128 {
                return None;
            }
            match checked_power(*a as i128, e as u32, 0, usize::MAX as i128) {
                Some(p) => Some(PengLiteral::Uint(p as usize)),
                None => None,
            }
        },
        (PengLiteral::Byte(a), PengLiteral::Byte(b)) => match checked_power(*a as i128, *b as u32, 0, 255) {
            Some(p) => Some(PengLiteral::Byte(p as u8)),
            None => None,
        },
        _ => None,
    }
}

fn fold_concat(left: &PengLiteral, right: &PengLiteral) -> (res: Option<PengLiteral>)
    ensures
        binary_folds_to(PengBinaryOperator::Concat, *left, *right, res),
{
    match (left, right) {
        (PengLiteral::String(a), PengLiteral::String(b)) => {
            let mut value = String::new();
            value.append(a.as_str());
            value.append(b.as_str());
            Some(PengLiteral::String(value))
        },
        _ => None,
    }
}

fn fold_and(left: &PengLiteral, right: &PengLiteral) -> (res: Option<PengLiteral>)
    ensures
        res == fold_binary_spec(PengBinaryOperator::ShortCircuitAnd, *left, *right),
        res == fold_binary_spec(PengBinaryOperator::NonShortCircuitAnd, *left, *right),
{
    match (left, right) {
        (PengLiteral::Bool(a), PengLiteral::Bool(b)) => Some(PengLiteral::Bool(*a && *b)),
        _ => None,
    }
}

fn fold_or(left: &PengLiteral, right: &PengLiteral) -> (res: Option<PengLiteral>)
    ensures
        res == fold_binary_spec(PengBinaryOperator::ShortCircuitOr, *left, *right),
        res == fold_binary_spec(PengBinaryOperator::NonShortCircuitOr, *left, *right),
{
    match (left, right) {
        (PengLiteral::Bool(a), PengLiteral::Bool(b)) => Some(PengLiteral::Bool(*a || *b)),
        _ => None,
    }
}

fn fold_equals(left: &PengLiteral, right: &PengLiteral) -> (res: Option<PengLiteral>)
    ensures
        res == fold_binary_spec(PengBinaryOperator::Equals, *left, *right),
{
    match (left, right) {
        (PengLiteral::Nil, PengLiteral::Nil) => Some(PengLiteral::Bool(true)),
        (PengLiteral::Int(a), PengLiteral::Int(b)) => Some(PengLiteral::Bool(*a == *b)),
        (PengLiteral::Uint(a), PengLiteral::Uint(b)) => Some(PengLiteral::Bool(*a == *b)),
        (PengLiteral::Byte(a), PengLiteral::Byte(b)) => Some(PengLiteral::Bool(*a == *b)),
        (PengLiteral::Bool(a), PengLiteral::Bool(b)) => Some(PengLiteral::Bool(*a == *b)),
        (PengLiteral::String(a), PengLiteral::String(b)) => Some(PengLiteral::Bool(*a == *b)),
        _ => None,
    }
}

fn fold_not_equals(left: &PengLiteral, right: &PengLiteral) -> (res: Option<PengLiteral>)
    ensures
        res == fold_binary_spec(PengBinaryOperator::NotEquals, *left, *right),
{
    match fold_equals(left, right) {
        Some(PengLiteral::Bool(v)) => Some(PengLiteral::Bool(!v)),
        _ => None,
    }
}

fn fold_greater_than(left: &PengLiteral, right: &PengLiteral) -> (res: Option<PengLiteral>)
    ensures
        res == fold_binary_spec(PengBinaryOperator::GreaterThan, *left, *right),
{
    match (left, right) {
        (PengLiteral::Int(a), PengLiteral::Int(b)) => Some(PengLiteral::Bool(*a > *b)),
        (PengLiteral::Uint(a), PengLiteral::Uint(b)) => Some(PengLiteral::Bool(*a > *b)),
        (PengLiteral::Byte(a), PengLiteral::Byte(b)) => Some(PengLiteral::Bool(*a > *b)),
        _ => None,
    }
}

fn fold_greater_equals_than(left: &PengLiteral, right: &PengLiteral) -> (res: Option<PengLiteral>)
    ensures
        res == fold_binary_spec(PengBinaryOperator::GreaterEqualsThan, *left, *right),
{
    match (left, right) {
        (PengLiteral::Int(a), PengLiteral::Int(b)) => Some(PengLiteral::Bool(*a >= *b)),
        (PengLiteral::Uint(a), PengLiteral::Uint(b)) => Some(PengLiteral::Bool(*a >= *b)),
        (PengLiteral::Byte(a), PengLiteral::Byte(b)) => Some(PengLiteral::Bool(*a >= *b)),
        _ => None,
    }
}

fn fold_less_than(left: &PengLiteral, right: &PengLiteral) -> (res: Option<PengLiteral>)
    ensures
        res == fold_binary_spec(PengBinaryOperator::LessThan, *left, *right),
{
    match (left, right) {
        (PengLiteral::Int(a), PengLiteral::Int(b)) => Some(PengLiteral::Bool(*a < *b)),
        (PengLiteral::Uint(a), PengLiteral::Uint(b)) => Some(PengLiteral::Bool(*a < *b)),
        (PengLiteral::Byte(a), PengLiteral::Byte(b)) => Some(PengLiteral::Bool(*a < *b)),
        _ => None,
    }
}

fn fold_less_equals_than(left: &PengLiteral, right: &PengLiteral) -> (res: Option<PengLiteral>)
    ensures
        res == fold_binary_spec(PengBinaryOperator::LessEqualsThan, *left, *right),
{
    match (left, right) {
        (PengLiteral::Int(a), PengLiteral::Int(b)) => Some(PengLiteral::Bool(*a <= *b)),
        (PengLiteral::Uint(a), PengLiteral::Uint(b)) => Some(PengLiteral::Bool(*a <= *b)),
        (PengLiteral::Byte(a), PengLiteral::Byte(b)) => Some(PengLiteral::Bool(*a <= *b)),
        _ => None,
    }
}

fn fold_binary(operator: &PengBinaryOperator, left: &PengLiteral, right: &PengLiteral) -> (res: Option<
    PengLiteral,
>)
    ensures
        binary_folds_to(*operator, *left, *right, res),
{
    match operator {
        PengBinaryOperator::Add => fold_add(left, right),
        PengBinaryOperator::Subtract => fold_subtract(left, right),
        PengBinaryOperator::Multiply => fold_multiply(left, right),
        PengBinaryOperator::Divide => fold_divide(left, right),
        PengBinaryOperator::Power => fold_power(left, right),
        PengBinaryOperator::Remainder => fold_remainder(left, right),
        PengBinaryOperator::Concat => fold_concat(left, right),
        PengBinaryOperator::ShortCircuitAnd | PengBinaryOperator::NonShortCircuitAnd => fold_and(left, right),
        PengBinaryOperator::ShortCircuitOr | PengBinaryOperator::NonShortCircuitOr => fold_or(left, right),
        PengBinaryOperator::Equals => fold_equals(left, right),
        PengBinaryOperator::NotEquals => fold_not_equals(left, right),
        PengBinaryOperator::GreaterThan => fold_greater_than(left, right),
        PengBinaryOperator::GreaterEqualsThan => fold_greater_equals_than(left, right),
        PengBinaryOperator::LessThan => fold_less_than(left, right),
        PengBinaryOperator::LessEqualsThan => fold_less_equals_than(left, right),
        PengBinaryOperator::As => None,
    }
}

fn literal_from_expression(expression: &PengPositionedExpression) -> (res: Option<&PengLiteral>)
    ensures
        match literal_of(*expression) {
            Some(v) => res matches Some(l) && *l == v,
            None => res is None,
        },
{
    match &expression.value {
        PengExpression::Literal(literal) => Some(&literal.value),
        _ => None,
    }
}

fn literal_expression(literal: PengLiteral, position: PengPosition) -> (res: PengPositionedExpression)
    ensures
        res == literal_expression_spec(literal, position),
{
    PengPositioned { position, value: PengExpression::Literal(PengPositioned { position, value: literal }) }
}

/// Replaces a unary or binary operation on literals by the literal it evaluates to.
/// Operations that are undefined or would overflow, and those on floating-point values
/// other than negation, are left as they are.
pub fn fold_expression(expression: PengPositionedExpression) -> (res: Result<
    PengPositionedExpression,
    PengError,
>)
    ensures
        res matches Ok(x) && folds_to(expression, x),
{
    let folded = match &expression.value {
        PengExpression::Unary { operator, value } => match literal_from_expression(value) {
            Some(literal) => fold_unary(operator, literal),
            None => return Ok(expression),
        },
        PengExpression::Binary { left, operator, right } => {
            let l = match literal_from_expression(left) {
                Some(v) => v,
                None => return Ok(expression),
            };
            let r = match literal_from_expression(right) {
                Some(v) => v,
                None => return Ok(expression),
            };
            fold_binary(operator, l, r)
        },
        _ => None,
    };
    match folded {
        Some(literal) => Ok(literal_expression(literal, expression.position)),
        None => Ok(expression),
    }
}

} // verus!
