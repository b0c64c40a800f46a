use vstd::prelude::*;
use crate::binary::header::PengBinaryHeader;
use crate::function::PengBytecodeFunctionParams;
use crate::position::PengPosition;

verus! {

/// The index of a value in a binary's heap section.
#[derive(Debug, Clone, Copy, PartialEq, Eq, Hash, Structural)]
pub struct PengBinaryHeapId(pub u32);

/// Whether a binary holds a program (declarations) or a script (statements).
#[derive(Debug, Clone, Copy, PartialEq, Eq, Structural)]
pub enum PengBinaryEntryKind {
    Program,
    Script,
}

/// A reference from one part of a binary to a value: one of its own heap values,
/// or a value the loading environment provides under a name.
#[derive(Debug, Clone)]
pub enum PengBinaryRef {
    Heap(PengBinaryHeapId),
    External(String),
}

/// A plain value. Floating-point values are held by their IEEE-754 bits.
#[derive(Debug, Clone)]
pub enum PengBinaryCell {
    Nil,
    Int(i64),
    Uint(u64),
    Float32(u32),
    Float64(u64),
    Byte(u8),
    Bool(bool),
    Reference(PengBinaryRef),
}

/// A plain value together with whether it may be reassigned.
#[derive(Debug, Clone)]
pub enum PengBinaryBindedCell {
    Mutable(PengBinaryCell),
    Immutable(PengBinaryCell),
}

/// A type as stored in a binary.
#[derive(Debug)]
pub enum PengBinaryType {
    Nil,
    Int,
    Uint,
    Float32,
    Float64,
    Byte,
    Bool,
    String,
    Object,
    Vector(Box<PengBinaryType>),
    Type,
    Module,
    Function,
    Operator,
    Thread,
    Custom(Vec<(String, PengBinaryBindedCell)>),
    Any,
}

/// One instruction as stored in a binary; names are spelled out and heap pointers
/// are references.
#[derive(Debug, Clone)]
pub enum PengBinaryOpcode {
    PushConst(usize),
    MakeImmutable,
    PushLocal(usize),
    ReserveLocal(usize),
    StoreLocal(usize),
    PushHeap(PengBinaryRef),
    PushHeapRef(PengBinaryRef),
    StoreHeap,
    PushString(String),
    CreateEmptyObject,
    CreateEmptyModule,
    CreateVector(usize),
    CreateSuperType(usize),
    CreateTypedObject,
    Convert,
    Duplicate,
    Pop,
    Swap,
    Add,
    Subtract,
    Multiply,
    Divide,
    Power,
    Remainder,
    Negate,
    Concat,
    And,
    Or,
    Not,
    Equals,
    NotEquals,
    GreaterThan,
    GreaterEqualsThan,
    LessThan,
    LessEqualsThan,
    OperationCall,
    TryOperationCall,
    FunctionCall(usize),
    FunctionCallSpread(usize),
    TryFunctionCall(usize),
    TryFunctionCallSpread(usize),
    GetIndex,
    SetIndex,
    GetAttribute(String),
    SetAttribute(String),
    GetMember(String),
    SetMember(String),
    Jump(usize),
    JumpIfTrue(usize),
    JumpIfFalse(usize),
    Return,
}

/// The code of a function or operation: its instructions, their positions (all or
/// none), its constants and the values it uses.
#[derive(Debug)]
pub struct PengBinaryBytecode {
    pub bytecode: Vec<PengBinaryOpcode>,
    pub positions: Vec<PengPosition>,
    pub consts: Vec<PengBinaryValue>,
    pub using_values: Vec<PengBinaryRef>,
}

/// A heap value as stored in a binary.
#[derive(Debug)]
pub enum PengBinaryValue {
    Cell(PengBinaryCell),
    String(String),
    Object(Vec<(String, PengBinaryBindedCell)>),
    Vector(Vec<PengBinaryBindedCell>),
    Type(PengBinaryType),
    Module(Vec<(String, PengBinaryBindedCell)>),
    Function { code: PengBinaryBytecode, params: PengBytecodeFunctionParams },
    Operation(PengBinaryBytecode),
}

/// A heap value with the id it is referred to by.
#[derive(Debug)]
pub struct PengBinaryHeapValue {
    pub id: PengBinaryHeapId,
    pub value: PengBinaryValue,
}

/// A named global of a binary.
#[derive(Debug, Clone)]
pub struct PengBinaryGlobal {
    pub name: String,
    pub mutable: bool,
    pub value: PengBinaryRef,
}

/// A whole binary: header, entry kind, heap, globals and the optional initializer.
#[derive(Debug)]
pub struct PengBinaryFile {
    pub header: PengBinaryHeader,
    pub entry_kind: PengBinaryEntryKind,
    pub heap: Vec<PengBinaryHeapValue>,
    pub globals: Vec<PengBinaryGlobal>,
    pub init: Option<PengBinaryRef>,
}

} // verus!
