use vstd::prelude::*;
use crate::call::PengCell;
use crate::optimizer::constant_folding::{arith, checked_power, lemma_rem_bounds};
use crate::parser::ast::PengBinaryOperator;

verus! {

/// An arithmetic instruction.
#[derive(Debug, Clone, Copy, PartialEq, Eq, Structural)]
pub enum PengNumericOperation {
    Add,
    Subtract,
    Multiply,
    Divide,
    Power,
    Remainder,
}

/// What an arithmetic instruction gives on two cells: a cell; nothing, where it is
/// undefined, overflows or the cells are not numbers; or a floating-point computation,
/// where a float takes part or an integer is raised to a negative power.
#[derive(Debug, Clone, Copy, PartialEq, Eq, Structural)]
pub enum PengNumericResult {
    Value(PengCell),
    Undefined,
    NeedsFloat,
}

pub open spec fn operator_of(op: PengNumericOperation) -> PengBinaryOperator {
    match op {
        PengNumericOperation::Add => PengBinaryOperator::Add,
        PengNumericOperation::Subtract => PengBinaryOperator::Subtract,
        PengNumericOperation::Multiply => PengBinaryOperator::Multiply,
        PengNumericOperation::Divide => PengBinaryOperator::Divide,
        PengNumericOperation::Power => PengBinaryOperator::Power,
        PengNumericOperation::Remainder => PengBinaryOperator::Remainder,
    }
}

/// The signed integer `v` as a cell, when it fits.
pub open spec fn int_value(v: Option<int>) -> PengNumericResult {
    match v {
        Some(x) => if isize::MIN <= x <= isize::MAX {
            PengNumericResult::Value(PengCell::Int(x as isize))
        } else {
            PengNumericResult::Undefined
        },
        None => PengNumericResult::Undefined,
    }
}

pub open spec fn uint_value(v: Option<int>) -> PengNumericResult {
    match v {
        Some(x) => if 0 <= x <= usize::MAX {
            PengNumericResult::Value(PengCell::Uint(x as usize))
        } else {
            PengNumericResult::Undefined
        },
        None => PengNumericResult::Undefined,
    }
}

pub open spec fn byte_value(v: Option<int>) -> PengNumericResult {
    match v {
        Some(x) => if 0 <= x <= u8::MAX {
            PengNumericResult::Value(PengCell::Byte(x as u8))
        } else {
            PengNumericResult::Undefined
        },
        None => PengNumericResult::Undefined,
    }
}

/// Signed arithmetic: a negative power goes to floating point; `isize::MIN % -1` is
/// undefined like every result out of range.
pub open spec fn int_result(op: PengNumericOperation, a: int, b: int) -> PengNumericResult {
    if op == PengNumericOperation::Power && b < 0 {
        PengNumericResult::NeedsFloat
    } else if op == PengNumericOperation::Remainder && a == isize::MIN && b == -1 {
        PengNumericResult::Undefined
    } else {
        int_value(arith(operator_of(op), a, b))
    }
}

/// Arithmetic of a signed and an unsigned integer: computed exactly, kept when it fits a
/// signed integer; a negative power goes to floating point.
pub open spec fn mixed_result(op: PengNumericOperation, a: int, b: int) -> PengNumericResult {
    if op == PengNumericOperation::Power && b < 0 {
        PengNumericResult::NeedsFloat
    } else {
        int_value(arith(operator_of(op), a, b))
    }
}

/// What an arithmetic instruction gives on two cells.
pub open spec fn numeric_result(l: PengCell, r: PengCell, op: PengNumericOperation) -> PengNumericResult {
    match (l, r) {
        (PengCell::Float32(_), PengCell::Float32(_)) | (PengCell::Float32(_), PengCell::Float64(_))
        | (PengCell::Float64(_), PengCell::Float32(_)) | (PengCell::Float64(_), PengCell::Float64(_)) =>
            PengNumericResult::NeedsFloat,
        (PengCell::Float32(_), PengCell::Int(_)) | (PengCell::Float32(_), PengCell::Uint(_))
        | (PengCell::Float32(_), PengCell::Byte(_)) | (PengCell::Float64(_), PengCell::Int(_))
        | (PengCell::Float64(_), PengCell::Uint(_)) | (PengCell::Float64(_), PengCell::Byte(_)) =>
            PengNumericResult::NeedsFloat,
        (PengCell::Int(_), PengCell::Float32(_)) | (PengCell::Uint(_), PengCell::Float32(_))
        | (PengCell::Byte(_), PengCell::Float32(_)) | (PengCell::Int(_), PengCell::Float64(_))
        | (PengCell::Uint(_), PengCell::Float64(_)) | (PengCell::Byte(_), PengCell::Float64(_)) =>
            PengNumericResult::NeedsFloat,
        (PengCell::Int(a), PengCell::Int(b)) => int_result(op, a as int, b as int),
        (PengCell::Int(a), PengCell::Uint(b)) => mixed_result(op, a as int, b as int),
        (PengCell::Uint(a), PengCell::Int(b)) => mixed_result(op, a as int, b as int),
        (PengCell::Int(a), PengCell::Byte(b)) => int_result(op, a as int, b as int),
        (PengCell::Byte(a), PengCell::Int(b)) => int_result(op, a as int, b as int),
        (PengCell::Uint(a), PengCell::Uint(b)) => uint_value(arith(operator_of(op), a as int, b as int)),
        (PengCell::Uint(a), PengCell::Byte(b)) => uint_value(arith(operator_of(op), a as int, b as int)),
        (PengCell::Byte(a), PengCell::Uint(b)) => uint_value(arith(operator_of(op), a as int, b as int)),
        (PengCell::Byte(a), PengCell::Byte(b)) => byte_value(arith(operator_of(op), a as int, b as int)),
        _ => PengNumericResult::Undefined,
    }
}

fn apply_int_operation(left: isize, right: isize, operation: PengNumericOperation) -> (res: PengNumericResult)
    ensures
        res == int_result(operation, left as int, right as int),
{
    let value = match operation {
        PengNumericOperation::Add => left.checked_add(right),
        PengNumericOperation::Subtract => left.checked_sub(right),
        PengNumericOperation::Multiply => left.checked_mul(right),
        PengNumericOperation::Divide => left.checked_div(right),
        PengNumericOperation::Power => {
            if right < 0 {
                return PengNumericResult::NeedsFloat;
            }
            let e = right as i128;
            if e > 0xffff_ffffi128 {
                None
            } else {
                match checked_power(left as i128, e as u32, isize::MIN as i128, isize::MAX as i128) {
                    Some(p) => Some(p as isize),
                    None => None,
                }
            }
        },
        PengNumericOperation::Remainder => {
            proof {
                if right != 0 {
                    lemma_rem_bounds(left as int, right as int);
                }
            }
            left.checked_rem(right)
        },
    };
    match value {
        Some(v) => PengNumericResult::Value(PengCell::Int(v)),
        None => PengNumericResult::Undefined,
    }
}

fn apply_uint_operation(left: usize, right: usize, operation: PengNumericOperation) -> (res: PengNumericResult)
    ensures
        res == uint_value(arith(operator_of(operation), left as int, right as int)),
{
    let value = match operation {
        PengNumericOperation::Add => left.checked_add(right),
        PengNumericOperation::Subtract => left.checked_sub(right),
        PengNumericOperation::Multiply => left.checked_mul(right),
        PengNumericOperation::Divide => left.checked_div(right),
        PengNumericOperation::Power => {
            let e = right as u128;
            if e > 0xffff_ffffu128 {
                None
            } else {
                match checked_power(left as i128, e as u32, 0, usize::MAX as i128) {
                    Some(p) => Some(p as usize),
                    None => None,
                }
            }
        },
        PengNumericOperation::Remainder => left.checked_rem(right),
    };
    match value {
        Some(v) => PengNumericResult::Value(PengCell::Uint(v)),
        None => PengNumericResult::Undefined,
    }
}

fn apply_byte_operation(left: u8, right: u8, operation: PengNumericOperation) -> (res: PengNumericResult)
    ensures
        res == byte_value(arith(operator_of(operation), left as int, right as int)),
{
    let value = match operation {
        PengNumericOperation::Add => left.checked_add(right),
        PengNumericOperation::Subtract => left.checked_sub(right),
        PengNumericOperation::Multiply => left.checked_mul(right),
        PengNumericOperation::Divide => left.checked_div(right),
        PengNumericOperation::Power => match checked_power(left as i128, right as u32, 0, 255) {
            Some(p) => Some(p as u8),
            None => None,
        },
        PengNumericOperation::Remainder => left.checked_rem(right),
    };
    match value {
        Some(v) => PengNumericResult::Value(PengCell::Byte(v)),
        None => PengNumericResult::Undefined,
    }
}

fn apply_mixed_int_operation(left: i128, right: i128, operation: PengNumericOperation) -> (res: PengNumericResult)
    requires
        isize::MIN <= left <= usize::MAX,
        isize::MIN <= right <= usize::MAX,
    ensures
        res == mixed_result(operation, left as int, right as int),
{
    if operation == PengNumericOperation::Power && right < 0 {
        return PengNumericResult::NeedsFloat;
    }
    let value: Option<i128> = match operation {
        PengNumericOperation::Add => Some(left + right),
        PengNumericOperation::Subtract => Some(left - right),
        PengNumericOperation::Multiply => left.checked_mul(right),
        PengNumericOperation::Divide => {
            if right == 0 {
                None
            } else {
                left.checked_div(right)
            }
        },
        PengNumericOperation::Power => {
            if right > 0xffff_ffffi128 {
                None
            } else {
                checked_power(left, right as u32, isize::MIN as i128, isize::MAX as i128)
            }
        },
        PengNumericOperation::Remainder => {
            proof {
                if right != 0 {
                    lemma_rem_bounds(left as int, right as int);
                }
            }
            left.checked_rem(right)
        },
    };
    match value {
        Some(v) => if isize::MIN as i128 <= v && v <= isize::MAX as i128 {
            PengNumericResult::Value(PengCell::Int(v as isize))
        } else {
            PengNumericResult::Undefined
        },
        None => PengNumericResult::Undefined,
    }
}

/// What an arithmetic instruction gives on two cells; the floating-point cases are left
/// to the caller.
pub fn binary_numeric_cells(left: &PengCell, right: &PengCell, operation: PengNumericOperation) -> (res:
    PengNumericResult)
    ensures
        res == numeric_result(*left, *right, operation),
{
    match (left, right) {
        (PengCell::Float32(_), PengCell::Float32(_)) | (PengCell::Float32(_), PengCell::Float64(_))
        | (PengCell::Float64(_), PengCell::Float32(_)) | (PengCell::Float64(_), PengCell::Float64(_)) =>
            PengNumericResult::NeedsFloat,
        (PengCell::Float32(_), PengCell::Int(_)) | (PengCell::Float32(_), PengCell::Uint(_))
        | (PengCell::Float32(_), PengCell::Byte(_)) | (PengCell::Float64(_), PengCell::Int(_))
        | (PengCell::Float64(_), PengCell::Uint(_)) | (PengCell::Float64(_), PengCell::Byte(_)) =>
            PengNumericResult::NeedsFloat,
        (PengCell::Int(_), PengCell::Float32(_)) | (PengCell::Uint(_), PengCell::Float32(_))
        | (PengCell::Byte(_), PengCell::Float32(_)) | (PengCell::Int(_), PengCell::Float64(_))
        | (PengCell::Uint(_), PengCell::Float64(_)) | (PengCell::Byte(_), PengCell::Float64(_)) =>
            PengNumericResult::NeedsFloat,
        (PengCell::Int(a), PengCell::Int(b)) => apply_int_operation(*a, *b, operation),
        (PengCell::Int(a), PengCell::Uint(b)) => apply_mixed_int_operation(*a as i128, *b as i128, operation),
        (PengCell::Uint(a), PengCell::Int(b)) => apply_mixed_int_operation(*a as i128, *b as i128, operation),
        (PengCell::Int(a), PengCell::Byte(b)) => apply_int_operation(*a, *b as isize, operation),
        (PengCell::Byte(a), PengCell::Int(b)) => apply_int_operation(*a as isize, *b, operation),
        (PengCell::Uint(a), PengCell::Uint(b)) => apply_uint_operation(*a, *b, operation),
        (PengCell::Uint(a), PengCell::Byte(b)) => apply_uint_operation(*a, *b as usize, operation),
        (PengCell::Byte(a), PengCell::Uint(b)) => apply_uint_operation(*a as usize, *b, operation),
        (PengCell::Byte(a), PengCell::Byte(b)) => apply_byte_operation(*a, *b, operation),
        _ => PengNumericResult::Undefined,
    }
}

/// The signed integer cell of `x`, or `Undefined` when `x` does not fit.
pub open spec fn signed_cell(x: int) -> PengNumericResult {
    if isize::MIN <= x <= isize::MAX {
        PengNumericResult::Value(PengCell::Int(x as isize))
    } else {
        PengNumericResult::Undefined
    }
}

/// The unsigned integer cell of `x`, or `Undefined` when `x` does not fit.
pub open spec fn unsigned_cell(x: int) -> PengNumericResult {
    if 0 <= x <= usize::MAX {
        PengNumericResult::Value(PengCell::Uint(x as usize))
    } else {
        PengNumericResult::Undefined
    }
}

/// Sums, differences and products of integer cells are the exact sum, difference and
/// product of their values: a signed result for two signed integers or a signed and an
/// unsigned one, an unsigned result for two unsigned integers, a byte for two bytes; a
/// result that does not fit is undefined.
pub proof fn lemma_integer_cells_add_subtract_multiply(a: isize, b: isize, c: usize, d: usize, x: u8, y: u8)
    ensures
        numeric_result(PengCell::Int(a), PengCell::Int(b), PengNumericOperation::Add) == signed_cell(a + b),
        numeric_result(PengCell::Int(a), PengCell::Int(b), PengNumericOperation::Subtract) == signed_cell(a - b),
        numeric_result(PengCell::Int(a), PengCell::Int(b), PengNumericOperation::Multiply) == signed_cell(a * b),
        numeric_result(PengCell::Uint(c), PengCell::Uint(d), PengNumericOperation::Add) == unsigned_cell(c + d),
        numeric_result(PengCell::Uint(c), PengCell::Uint(d), PengNumericOperation::Subtract) == unsigned_cell(c - d),
        numeric_result(PengCell::Uint(c), PengCell::Uint(d), PengNumericOperation::Multiply) == unsigned_cell(c * d),
        numeric_result(PengCell::Int(a), PengCell::Uint(d), PengNumericOperation::Add) == signed_cell(a + d),
        numeric_result(PengCell::Int(a), PengCell::Uint(d), PengNumericOperation::Subtract) == signed_cell(a - d),
        numeric_result(PengCell::Uint(c), PengCell::Int(b), PengNumericOperation::Subtract) == signed_cell(c - b),
        numeric_result(PengCell::Int(a), PengCell::Byte(y), PengNumericOperation::Subtract) == signed_cell(a - y),
        numeric_result(PengCell::Byte(x), PengCell::Byte(y), PengNumericOperation::Add) == (if x + y <= u8::MAX {
            PengNumericResult::Value(PengCell::Byte((x + y) as u8))
        } else {
            PengNumericResult::Undefined
        }),
        numeric_result(PengCell::Byte(x), PengCell::Byte(y), PengNumericOperation::Subtract) == (if y <= x {
            PengNumericResult::Value(PengCell::Byte((x - y) as u8))
        } else {
            PengNumericResult::Undefined
        }),
{
}

/// Dividing two signed integers truncates: the quotient `q` and the remainder `r` give
/// back the dividend (`q * b + r == a`), the remainder is smaller than the divisor and
/// takes the sign of the dividend. Dividing by zero, and the one quotient that does not
/// fit, are undefined.
pub proof fn lemma_int_cells_divide(a: isize, b: isize)
    ensures
        b == 0 ==> numeric_result(PengCell::Int(a), PengCell::Int(b), PengNumericOperation::Divide)
            == PengNumericResult::Undefined && numeric_result(PengCell::Int(a), PengCell::Int(b), PengNumericOperation::Remainder)
            == PengNumericResult::Undefined,
        a == isize::MIN && b == -1 ==> numeric_result(PengCell::Int(a), PengCell::Int(b), PengNumericOperation::Divide)
            == PengNumericResult::Undefined,
        b != 0 && !(a == isize::MIN && b == -1) ==> exists|q: isize, r: isize|
            numeric_result(PengCell::Int(a), PengCell::Int(b), PengNumericOperation::Divide) == PengNumericResult::Value(
                PengCell::Int(q),
            ) && numeric_result(PengCell::Int(a), PengCell::Int(b), PengNumericOperation::Remainder)
                == PengNumericResult::Value(PengCell::Int(r)) && q * b + r == a && (if b < 0 {
                r < -b && -r < -b
            } else {
                r < b && -r < b
            }) && (r == 0 || (r < 0) == (a < 0)),
{
    if b != 0 && !(a == isize::MIN && b == -1) {
        let ai = a as int;
        let bi = b as int;
        let aa = crate::optimizer::constant_folding::abs(ai);
        let ab = crate::optimizer::constant_folding::abs(bi);
        let m = aa / ab;
        let n = aa % ab;
        vstd::arithmetic::div_mod::lemma_fundamental_div_mod(aa, ab);
        vstd::arithmetic::div_mod::lemma_mod_bound(aa, ab);
        vstd::arithmetic::div_mod::lemma_div_pos_is_pos(aa, ab);
        vstd::arithmetic::div_mod::lemma_div_is_ordered_by_denominator(aa, 1, ab);
        assert(aa / 1 == aa);
        assert(aa == ab * m + n);
        let q = crate::optimizer::constant_folding::trunc_div(ai, bi);
        let r = crate::optimizer::constant_folding::trunc_rem(ai, bi);
        assert(m <= aa);
        assert(q * bi + r == ai) by (nonlinear_arith)
            requires
                aa == ab * m + n,
                aa == (if ai < 0 { -ai } else { ai }),
                ab == (if bi < 0 { -bi } else { bi }),
                q == (if (ai < 0) == (bi < 0) { m } else { -m }),
                r == (if ai < 0 { -n } else { n }),
        ;
        if ab == 1 {
            assert(m == aa);
        } else {
            vstd::arithmetic::div_mod::lemma_div_is_ordered_by_denominator(aa, 2, ab);
            assert(m <= aa / 2);
        }
        assert(isize::MIN <= q <= isize::MAX);
        assert(isize::MIN <= r <= isize::MAX);
        assert(numeric_result(PengCell::Int(a), PengCell::Int(b), PengNumericOperation::Divide) == PengNumericResult::Value(
            PengCell::Int(q as isize),
        ));
        assert(numeric_result(PengCell::Int(a), PengCell::Int(b), PengNumericOperation::Remainder)
            == PengNumericResult::Value(PengCell::Int(r as isize)));
        assert((q as isize) * b + (r as isize) == a);
    } else if a == isize::MIN && b == -1 {
        let aa = crate::optimizer::constant_folding::abs(a as int);
        assert(aa / 1 == aa);
    }
}

/// Raising a signed integer to a power is repeated multiplication: the zeroth power is
/// one, and each further power is the one before it times the base, as long as it fits.
/// A negative exponent is left to floating point.
pub proof fn lemma_int_cells_power(a: isize, e: isize)
    ensures
        e < 0 ==> numeric_result(PengCell::Int(a), PengCell::Int(e), PengNumericOperation::Power)
            == PengNumericResult::NeedsFloat,
        numeric_result(PengCell::Int(a), PengCell::Int(0), PengNumericOperation::Power) == PengNumericResult::Value(
            PengCell::Int(1),
        ),
        0 <= e < u32::MAX && e < isize::MAX ==> match numeric_result(PengCell::Int(a), PengCell::Int(e), PengNumericOperation::Power) {
            PengNumericResult::Value(PengCell::Int(p)) => numeric_result(
                PengCell::Int(a),
                PengCell::Int((e + 1) as isize),
                PengNumericOperation::Power,
            ) == signed_cell(p * a),
            _ => true,
        },
{
    if 0 <= e < u32::MAX && e < isize::MAX {
        let pw = crate::optimizer::constant_folding::power(a as int, e as nat);
        let next = crate::optimizer::constant_folding::power(a as int, (e + 1) as nat);
        assert(next == a * pw);
        assert(a * pw == pw * a) by (nonlinear_arith);
        let e1 = (e + 1) as isize;
        assert(e1 as int == e + 1);
        assert(numeric_result(PengCell::Int(a), PengCell::Int(e1), PengNumericOperation::Power) == signed_cell(next));
        if isize::MIN <= pw <= isize::MAX {
            assert(numeric_result(PengCell::Int(a), PengCell::Int(e), PengNumericOperation::Power)
                == PengNumericResult::Value(PengCell::Int(pw as isize)));
        } else {
            assert(numeric_result(PengCell::Int(a), PengCell::Int(e), PengNumericOperation::Power)
                == PengNumericResult::Undefined);
        }
    }
}

} // verus!
