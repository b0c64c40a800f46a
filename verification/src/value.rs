use vstd::prelude::*;
use vstd::string::StringExecFns;
use crate::binding::PengBinded;
use crate::call::PengCell;
use crate::error::PengError;
use crate::heap::{PengHeapValue, PengHeapValueV};
use crate::lexer::positioned_token::{decimal_text, integer_text, push_decimal};
use crate::lexer::token::push_char;
use crate::typing::PengType;

verus! {

/// Converting the cell `c` to `t` computes with floating-point values: from a float to
/// another number type or to a string, or from an integer to a float.
pub open spec fn cell_needs_float(c: PengCell, t: PengType) -> bool {
    match (c, t) {
        (PengCell::Float32(_), PengType::Float64) | (PengCell::Float32(_), PengType::Int)
        | (PengCell::Float32(_), PengType::Uint) | (PengCell::Float32(_), PengType::Byte)
        | (PengCell::Float32(_), PengType::String) => true,
        (PengCell::Float64(_), PengType::Float32) | (PengCell::Float64(_), PengType::Int)
        | (PengCell::Float64(_), PengType::Uint) | (PengCell::Float64(_), PengType::Byte)
        | (PengCell::Float64(_), PengType::String) => true,
        (PengCell::Int(_), PengType::Float32) | (PengCell::Int(_), PengType::Float64)
        | (PengCell::Uint(_), PengType::Float32) | (PengCell::Uint(_), PengType::Float64)
        | (PengCell::Byte(_), PengType::Float32) | (PengCell::Byte(_), PengType::Float64) => true,
        _ => false,
    }
}

/// Converting `v` to `t` computes with floating-point values somewhere: on the value
/// itself, or on an item of a vector whose items are checked.
pub open spec fn needs_float(v: PengHeapValueV, t: PengType) -> bool {
    match (v, t) {
        (PengHeapValueV::Cell(c), _) => cell_needs_float(c, t),
        (PengHeapValueV::Vector(items), PengType::Vector(inner)) => !(*inner is Any) && exists|i: int|
            0 <= i < items.len() && #[trigger] cell_needs_float(items[i].bound(), *inner),
        _ => false,
    }
}

/// How a cell is written as a string; `None` for a reference.
pub open spec fn cell_text(c: PengCell) -> Option<Seq<char>> {
    match c {
        PengCell::Nil => Some("nil"@),
        PengCell::Int(x) => Some(integer_text(x as int)),
        PengCell::Uint(x) => Some(decimal_text(x as nat)),
        PengCell::Byte(x) => Some(decimal_text(x as nat)),
        PengCell::Bool(b) => Some(
            if b {
                "true"@
            } else {
                "false"@
            },
        ),
        _ => None,
    }
}

/// A cell converted to a type that is held in a cell: the same kind, a number that fits,
/// or nothing.
pub open spec fn convert_cell(c: PengCell, t: PengType) -> Option<PengCell> {
    match (c, t) {
        (PengCell::Nil, PengType::Nil) => Some(c),
        (PengCell::Int(_), PengType::Int) | (PengCell::Uint(_), PengType::Uint) | (PengCell::Byte(_), PengType::Byte)
        | (PengCell::Float32(_), PengType::Float32) | (PengCell::Float64(_), PengType::Float64)
        | (PengCell::Bool(_), PengType::Bool) => Some(c),
        (PengCell::Int(x), PengType::Uint) => if x >= 0 {
            Some(PengCell::Uint(x as usize))
        } else {
            None
        },
        (PengCell::Int(x), PengType::Byte) => if 0 <= x <= 255 {
            Some(PengCell::Byte(x as u8))
        } else {
            None
        },
        (PengCell::Uint(x), PengType::Int) => if x <= isize::MAX {
            Some(PengCell::Int(x as isize))
        } else {
            None
        },
        (PengCell::Uint(x), PengType::Byte) => if x <= 255 {
            Some(PengCell::Byte(x as u8))
        } else {
            None
        },
        (PengCell::Byte(x), PengType::Int) => Some(PengCell::Int(x as isize)),
        (PengCell::Byte(x), PengType::Uint) => Some(PengCell::Uint(x as usize)),
        _ => None,
    }
}

/// Whether an object's fields have one named `name`.
pub open spec fn field_named(
    fields: Seq<(crate::utils::PengNamePoolPtr, PengBinded<PengCell>)>,
    name: crate::utils::PengNamePoolPtr,
) -> bool {
    exists|j: int| 0 <= j < fields.len() && fields[j].0 == name
}

/// Whether the fields have one named like each of `names`.
pub open spec fn has_fields(
    fields: Seq<(crate::utils::PengNamePoolPtr, PengBinded<PengCell>)>,
    names: Seq<(crate::utils::PengNamePoolPtr, Option<crate::utils::PengHeapPtr>)>,
) -> bool {
    forall|i: int| 0 <= i < names.len() ==> #[trigger] field_named(fields, names[i].0)
}

/// Whether every item converts to `t`.
pub open spec fn all_convert(items: Seq<PengBinded<PengCell>>, t: PengType) -> bool {
    forall|i: int| 0 <= i < items.len() ==> #[trigger] cell_converts_to(items[i].bound(), t)
}

/// Whether the cell `c` converts to `t`.
pub open spec fn cell_converts_to(c: PengCell, t: PengType) -> bool {
    match t {
        PengType::Any => true,
        PengType::Custom(_) => false,
        PengType::String => cell_text(c) is Some,
        _ => convert_cell(c, t) is Some,
    }
}

/// What converting `v` to `t` gives, or `None` where the conversion is refused: anything
/// converts to `Any`; cells convert as `convert_cell` says and to strings as they are
/// written; heap values keep their own type; a vector converts to a vector type when each
/// item converts to its item type; only an object that has every field of a custom type
/// converts to it.
pub open spec fn convert_spec(v: PengHeapValueV, t: PengType) -> Option<PengHeapValueV> {
    match t {
        PengType::Any => Some(v),
        PengType::Custom(ct) => match v {
            PengHeapValueV::Object(fields) => if has_fields(fields, ct.fields@) {
                Some(v)
            } else {
                None
            },
            _ => None,
        },
        _ => match v {
            PengHeapValueV::Cell(c) => if t is String {
                match cell_text(c) {
                    Some(s) => Some(PengHeapValueV::String(s)),
                    None => None,
                }
            } else {
                match convert_cell(c, t) {
                    Some(d) => Some(PengHeapValueV::Cell(d)),
                    None => None,
                }
            },
            PengHeapValueV::String(_) => if t is String {
                Some(v)
            } else {
                None
            },
            PengHeapValueV::Object(_) => if t is Object {
                Some(v)
            } else {
                None
            },
            PengHeapValueV::Module(_) => if t is Module {
                Some(v)
            } else {
                None
            },
            PengHeapValueV::Function(..) => if t is Function {
                Some(v)
            } else {
                None
            },
            PengHeapValueV::Type => if t is Type {
                Some(v)
            } else {
                None
            },
            PengHeapValueV::Operation => if t is Operator {
                Some(v)
            } else {
                None
            },
            PengHeapValueV::Thread => if t is Thread {
                Some(v)
            } else {
                None
            },
            PengHeapValueV::Vector(items) => match t {
                PengType::Vector(inner) => if *inner is Any || all_convert(items, *inner) {
                    Some(v)
                } else {
                    None
                },
                _ => None,
            },
        },
    }
}

fn text_of_cell(c: PengCell) -> (res: Option<String>)
    requires
        !(c is Float32),
        !(c is Float64),
    ensures
        match cell_text(c) {
            Some(s) => res matches Some(r) && r@ == s,
            None => res is None,
        },
{
    match c {
        PengCell::Nil => Some(String::from_str("nil")),
        PengCell::Int(x) => {
            let mut out = String::new();
            if x < 0 {
                push_char(&mut out, '-');
                push_decimal(&mut out, (0i128 - x as i128) as u128);
            } else {
                push_decimal(&mut out, x as u128);
            }
            Some(out)
        },
        PengCell::Uint(x) => {
            let mut out = String::new();
            push_decimal(&mut out, x as u128);
            Some(out)
        },
        PengCell::Byte(x) => {
            let mut out = String::new();
            push_decimal(&mut out, x as u128);
            Some(out)
        },
        PengCell::Bool(b) => Some(
            if b {
                String::from_str("true")
            } else {
                String::from_str("false")
            },
        ),
        _ => None,
    }
}

fn convert_to_cell(c: PengCell, t: &PengType) -> (res: Option<PengCell>)
    ensures
        res == convert_cell(c, *t),
{
    match (c, t) {
        (PengCell::Nil, PengType::Nil) => Some(c),
        (PengCell::Int(_), PengType::Int) | (PengCell::Uint(_), PengType::Uint) | (PengCell::Byte(_), PengType::Byte)
        | (PengCell::Float32(_), PengType::Float32) | (PengCell::Float64(_), PengType::Float64)
        | (PengCell::Bool(_), PengType::Bool) => Some(c),
        (PengCell::Int(x), PengType::Uint) => if x >= 0 {
            Some(PengCell::Uint(x as usize))
        } else {
            None
        },
        (PengCell::Int(x), PengType::Byte) => if 0 <= x && x <= 255 {
            Some(PengCell::Byte(x as u8))
        } else {
            None
        },
        (PengCell::Uint(x), PengType::Int) => if x <= isize::MAX as usize {
            Some(PengCell::Int(x as isize))
        } else {
            None
        },
        (PengCell::Uint(x), PengType::Byte) => if x <= 255 {
            Some(PengCell::Byte(x as u8))
        } else {
            None
        },
        (PengCell::Byte(x), PengType::Int) => Some(PengCell::Int(x as isize)),
        (PengCell::Byte(x), PengType::Uint) => Some(PengCell::Uint(x as usize)),
        _ => None,
    }
}

/// Whether the cell `c` converts to `t`.
fn cell_converts(c: PengCell, t: &PengType) -> (res: bool)
    requires
        !cell_needs_float(c, *t),
    ensures
        res == cell_converts_to(c, *t),
{
    match t {
        PengType::Any => true,
        PengType::Custom(_) => false,
        PengType::String => match c {
            PengCell::Reference(_) => false,
            _ => true,
        },
        _ => convert_to_cell(c, t).is_some(),
    }
}

fn has_field(fields: &Vec<(crate::utils::PengNamePoolPtr, PengBinded<PengCell>)>, name: crate::utils::PengNamePoolPtr) -> (res: bool)
    ensures
        res == field_named(fields@, name),
{
    let mut j: usize = 0;
    while j < fields.len()
        invariant
            j <= fields@.len(),
            forall|k: int| 0 <= k < j ==> fields@[k].0 != name,
        decreases fields@.len() - j,
    {
        if fields[j].0 == name {
            return true;
        }
        j = j + 1;
    }
    false
}

fn has_all_fields(
    fields: &Vec<(crate::utils::PengNamePoolPtr, PengBinded<PengCell>)>,
    names: &Vec<(crate::utils::PengNamePoolPtr, Option<crate::utils::PengHeapPtr>)>,
) -> (res: bool)
    ensures
        res == has_fields(fields@, names@),
{
    let mut i: usize = 0;
    while i < names.len()
        invariant
            i <= names@.len(),
            forall|k: int| 0 <= k < i ==> #[trigger] field_named(fields@, names@[k].0),
        decreases names@.len() - i,
    {
        if !has_field(fields, names[i].0) {
            assert(names@[i as int].0 == names[i as int].0);
            return false;
        }
        i = i + 1;
    }
    true
}

fn items_convert(items: &Vec<PengBinded<PengCell>>, t: &PengType) -> (res: bool)
    requires
        forall|i: int| 0 <= i < items@.len() ==> !cell_needs_float(#[trigger] items@[i].bound(), *t),
    ensures
        res == all_convert(items@, *t),
{
    let mut i: usize = 0;
    while i < items.len()
        invariant
            i <= items@.len(),
            forall|k: int| 0 <= k < items@.len() ==> !cell_needs_float(#[trigger] items@[k].bound(), *t),
            forall|k: int| 0 <= k < i ==> #[trigger] cell_converts_to(items@[k].bound(), *t),
        decreases items@.len() - i,
    {
        assert(!cell_needs_float(items@[i as int].bound(), *t));
        if !cell_converts(*items[i].value(), t) {
            return false;
        }
        i = i + 1;
    }
    true
}

/// Whether the conversion hands the value back as it is.
fn keeps(value: &PengHeapValue, target_type: &PengType) -> (res: bool)
    requires
        !needs_float(value@, *target_type),
    ensures
        res ==> convert_spec(value@, *target_type) == Some(value@),
        !res ==> (convert_spec(value@, *target_type) is Some ==> value@ is Cell),
        *target_type is Any ==> res,
{
    match (value, target_type) {
        (_, PengType::Any) => true,
        (PengHeapValue::Object(fields), PengType::Custom(ct)) => {
            let r = has_all_fields(fields, &ct.fields);
            r
        },
        (PengHeapValue::Cell(_), _) => false,
        (PengHeapValue::String(_), PengType::String) => true,
        (PengHeapValue::Object(_), PengType::Object) => true,
        (PengHeapValue::Module(_), PengType::Module) => true,
        (PengHeapValue::Function(..), PengType::Function) => true,
        (PengHeapValue::Type, PengType::Type) => true,
        (PengHeapValue::Operation, PengType::Operator) => true,
        (PengHeapValue::Thread, PengType::Thread) => true,
        (PengHeapValue::Vector(items), PengType::Vector(inner)) => {
            match **inner {
                PengType::Any => true,
                _ => {
                    assert(!(**inner is Any));
                    let r = items_convert(items, inner);
                    r
                },
            }
        },
        _ => false,
    }
}

impl PengHeapValue {
    /// Converts the value to `target_type` (see `convert_spec`); a refused conversion
    /// names the value and the type. Conversions that compute with floating-point values
    /// are not done here.
    pub fn convert(self, target_type: PengType) -> (res: Result<PengHeapValue, PengError>)
        requires
            !needs_float(self@, target_type),
        ensures
            match convert_spec(self@, target_type) {
                Some(w) => res matches Ok(x) && x@ == w,
                None => res matches Err(PengError::InvalidConversion { from, to }) && from@ == self@ && to
                    == target_type,
            },
    {
        let keep = keeps(&self, &target_type);
        if keep {
            return Ok(self);
        }
        let converted: Option<PengHeapValue> = match (&self, &target_type) {
            (PengHeapValue::Cell(c), PengType::String) => match text_of_cell(*c) {
                Some(s) => Some(PengHeapValue::String(s)),
                None => None,
            },
            (PengHeapValue::Cell(_), PengType::Custom(_)) => None,
            (PengHeapValue::Cell(c), _) => match convert_to_cell(*c, &target_type) {
                Some(d) => Some(PengHeapValue::Cell(d)),
                None => None,
            },
            _ => None,
        };
        match converted {
            Some(x) => Ok(x),
            None => Err(PengError::InvalidConversion { from: self, to: target_type }),
        }
    }
}

} // verus!
