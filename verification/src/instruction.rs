use vstd::prelude::*;
use crate::utils::{PengHeapPtr, PengNamePoolPtr};

verus! {

/// One instruction of the stack machine.
#[derive(Debug, Clone, Copy, PartialEq, Eq, Structural)]
pub enum PengInstruction {
    PushConst(usize),
    MakeImmutable,
    PushLocal(usize),
    ReserveLocal(usize),
    StoreLocal(usize),
    PushHeap(PengHeapPtr),
    PushHeapRef(PengHeapPtr),
    StoreHeap,
    PushString(PengNamePoolPtr),
    CreateEmptyObject,
    CreateEmptyModule,
    CreateVector(usize),
    CreateSuperType(usize),
    CreateUnion(usize),
    CreateTypedObject,
    Convert,
    Duplicate,
    Pop,
    Add,
    Subtract,
    Multiply,
    Divide,
    Power,
    Remainder,
    Negate,
    Concat,
    And,
    Or,
    Not,
    Equals,
    NotEquals,
    GreaterThan,
    GreaterEqualsThan,
    LessThan,
    LessEqualsThan,
    OperationCall,
    TryOperationCall,
    FunctionCall(usize),
    FunctionCallSpread(usize),
    TryFunctionCall(usize),
    TryFunctionCallSpread(usize),
    GetIndex,
    SetIndex,
    GetConstAttribute(PengNamePoolPtr),
    SetConstAttribute(PengNamePoolPtr),
    GetConstMember(PengNamePoolPtr),
    SetConstMember(PengNamePoolPtr),
    Jump(usize),
    JumpIfTrue(usize),
    JumpIfFalse(usize),
    Return,
}

impl PengInstruction {
    /// Two instructions are equal when they are the same instruction with the same operand.
    pub fn equals(&self, rhs: &Self) -> (res: bool)
        ensures
            res <==> *self == *rhs,
    {
        *self == *rhs
    }
}

} // verus!
