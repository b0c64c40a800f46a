use vstd::prelude::*;
use crate::binding::PengBinded;
use crate::positioned::PengPositioned;

verus! {

/// A whole source: a program is a list of declarations, a script a list of statements.
pub enum PengAST {
    Program(Vec<PengBindedDeclaration>),
    Script(Vec<PengPositionedStatement>),
}

pub type PengBindedDeclaration = PengBinded<PengDeclaration>;

pub type PengPositionedStatement = PengPositioned<PengStatement>;

pub type PengPositionedExpression = PengPositioned<PengExpression>;

pub type PengPositionedLiteral = PengPositioned<PengLiteral>;

pub type PengPositionedTypeExpression = PengPositioned<PengTypeExpression>;

pub type PengPositionedVariableDeclaration = PengPositioned<PengVariableDeclaration>;

pub type PengPositionedAsDeclaration = PengPositioned<PengAsDeclaration>;

pub type PengPositionedFunctionDeclaration = PengPositioned<PengFunctionDeclaration>;

pub type PengPositionedTypeDeclaration = PengPositioned<PengTypeDeclaration>;

pub type PengPositionedModuleDeclaration = PengPositioned<PengModuleDeclaration>;

pub type PengPositionedOperationDeclaration = PengPositioned<PengOperationDeclaration>;

pub type PengPositionedFunctionParam = PengPositioned<PengFunctionParam>;

pub type PengPositionedFunctionCallArg = PengPositioned<PengFunctionCallArg>;

/// A name, with where it was written.
pub type PengIdentifier = PengPositioned<String>;

pub enum PengDeclaration {
    Var(PengPositionedVariableDeclaration),
    As(PengPositionedAsDeclaration),
    Function(PengPositionedFunctionDeclaration),
    Type(PengPositionedTypeDeclaration),
    Module(PengPositionedModuleDeclaration),
    Operation(PengPositionedOperationDeclaration),
}

pub struct PengVariableDeclaration {
    pub name: PengIdentifier,
    pub type_hint: Option<PengPositionedTypeExpression>,
    pub value: Option<PengPositionedExpression>,
}

pub struct PengAsDeclaration {
    pub name: PengIdentifier,
    pub type_hint: Option<PengPositionedTypeExpression>,
    pub value: PengPositionedExpression,
}

pub struct PengFunctionParam {
    pub name: PengIdentifier,
    pub type_hint: Option<PengPositionedTypeExpression>,
    pub variadic: bool,
}

pub struct PengFunctionDeclaration {
    pub name: PengIdentifier,
    pub params: Vec<PengPositionedFunctionParam>,
    pub return_type: Option<PengPositionedTypeExpression>,
    pub body: Vec<PengPositionedStatement>,
}

pub struct PengTypeDeclaration {
    pub name: PengIdentifier,
    pub value: Option<PengPositionedTypeExpression>,
    pub supers: Vec<PengPositionedExpression>,
    pub fields: Vec<PengBinded<PengPositionedVariableDeclaration>>,
    pub functions: Vec<PengBinded<PengPositionedFunctionDeclaration>>,
}

pub struct PengModuleDeclaration {
    pub name: PengIdentifier,
    pub body: Vec<PengBindedDeclaration>,
}

pub struct PengOperationDeclaration {
    pub name: PengIdentifier,
    pub params: Vec<PengPositionedFunctionParam>,
    pub return_type: Option<PengPositionedTypeExpression>,
    pub body: Vec<PengPositionedStatement>,
}

pub enum PengStatement {
    Block(Vec<PengPositionedStatement>),
    Declaration(PengBindedDeclaration),
    Return(Option<PengPositionedExpression>),
    If(PengIfStatement),
    Match(PengMatchStatement),
    While(PengWhileStatement),
    For(PengForStatement),
    Loop(Vec<PengPositionedStatement>),
    Assign(PengAssignStatement),
    Expression(PengPositionedExpression),
    Break,
    Continue,
}

pub struct PengIfStatement {
    pub condition: PengPositionedExpression,
    pub then_branch: Vec<PengPositionedStatement>,
    pub else_branch: Option<Vec<PengPositionedStatement>>,
}

pub struct PengMatchArm {
    pub pattern: PengPositionedExpression,
    pub body: Vec<PengPositionedStatement>,
}

pub struct PengMatchStatement {
    pub value: PengPositionedExpression,
    pub arms: Vec<PengMatchArm>,
    pub elsing: Option<Vec<PengPositionedStatement>>,
}

pub struct PengWhileStatement {
    pub condition: PengPositionedExpression,
    pub body: Vec<PengPositionedStatement>,
}

pub struct PengForStatement {
    pub initializer: Option<Box<PengPositionedStatement>>,
    pub condition: Option<PengPositionedExpression>,
    pub increment: Option<Box<PengPositionedStatement>>,
    pub body: Vec<PengPositionedStatement>,
}

pub enum PengAssignStatement {
    Assign { target: PengPositionedExpression, value: PengPositionedExpression },
    AddAssign { target: PengPositionedExpression, value: PengPositionedExpression },
    SubtractAssign { target: PengPositionedExpression, value: PengPositionedExpression },
    MultiplyAssign { target: PengPositionedExpression, value: PengPositionedExpression },
    DivideAssign { target: PengPositionedExpression, value: PengPositionedExpression },
    PowerAssign { target: PengPositionedExpression, value: PengPositionedExpression },
    RemainderAssign { target: PengPositionedExpression, value: PengPositionedExpression },
}

#[derive(Debug, Clone, Copy, PartialEq, Eq, Structural)]
pub enum PengUnaryOperator {
    Not,
    Negate,
}

#[derive(Debug, Clone, Copy, PartialEq, Eq, Structural)]
pub enum PengBinaryOperator {
    Add,
    Subtract,
    Multiply,
    Divide,
    Power,
    Remainder,
    Concat,
    ShortCircuitAnd,
    ShortCircuitOr,
    NonShortCircuitAnd,
    NonShortCircuitOr,
    Equals,
    NotEquals,
    GreaterThan,
    GreaterEqualsThan,
    LessThan,
    LessEqualsThan,
    As,
}

pub enum PengExpression {
    Literal(PengPositionedLiteral),
    Identifier(PengIdentifier),
    Type(PengPositionedTypeExpression),
    Unary { operator: PengUnaryOperator, value: Box<PengPositionedExpression> },
    Binary {
        left: Box<PengPositionedExpression>,
        operator: PengBinaryOperator,
        right: Box<PengPositionedExpression>,
    },
    FuncCall(PengFuncCallExpression),
    MethodCall(PengMethodCallExpression),
    AttributeAccess(PengAttributeAccessExpression),
    MemberAccess(PengMemberAccessExpression),
    Index(PengIndexExpression),
    ObjectConstruction(PengObjectConstructionExpression),
    OperationCall {
        left: Box<PengPositionedExpression>,
        operation: Box<PengPositionedExpression>,
        right: Box<PengPositionedExpression>,
    },
    Try { value: Box<PengPositionedExpression>, elsing: Option<Box<PengPositionedExpression>> },
}

pub struct PengFuncCallExpression {
    pub function: Box<PengPositionedExpression>,
    pub args: Vec<PengPositionedFunctionCallArg>,
}

pub struct PengFunctionCallArg {
    pub expression: PengPositionedExpression,
    pub variadic: bool,
}

pub struct PengMethodCallExpression {
    pub object: Box<PengPositionedExpression>,
    pub method: PengIdentifier,
    pub args: Vec<PengPositionedFunctionCallArg>,
}

pub struct PengAttributeAccessExpression {
    pub object: Box<PengPositionedExpression>,
    pub name: PengIdentifier,
}

pub struct PengMemberAccessExpression {
    pub object: Box<PengPositionedExpression>,
    pub name: PengIdentifier,
}

pub struct PengIndexExpression {
    pub object: Box<PengPositionedExpression>,
    pub index: Box<PengPositionedExpression>,
}

pub struct PengObjectConstructionExpression {
    pub object_type: Box<PengPositionedExpression>,
    pub fields: Vec<PengObjectFieldLiteral>,
}

pub struct PengObjectFieldLiteral {
    pub name: PengIdentifier,
    pub value: PengPositionedExpression,
}

/// A literal. Floating-point literals are held by their IEEE-754 bits.
pub enum PengLiteral {
    Nil,
    Int(isize),
    Uint(usize),
    Byte(u8),
    Float32(u32),
    Float64(u64),
    Bool(bool),
    String(String),
    Vector(Vec<PengPositionedExpression>),
    Object(Vec<PengObjectFieldLiteral>),
    Function(PengFunctionLiteral),
    Module(PengModuleLiteral),
    Operation(PengOperationLiteral),
    Type(PengTypeLiteral),
}

pub struct PengFunctionLiteral {
    pub params: Vec<PengPositionedFunctionParam>,
    pub return_type: Option<PengPositionedTypeExpression>,
    pub body: Vec<PengPositionedStatement>,
}

pub struct PengModuleLiteral {
    pub body: Vec<PengBindedDeclaration>,
}

pub struct PengOperationLiteral {
    pub params: Vec<PengPositionedFunctionParam>,
    pub return_type: Option<PengPositionedTypeExpression>,
    pub body: Vec<PengPositionedStatement>,
}

pub struct PengTypeLiteral {
    pub supers: Vec<PengPositionedExpression>,
    pub fields: Vec<PengBinded<PengPositionedVariableDeclaration>>,
    pub functions: Vec<PengBinded<PengPositionedFunctionDeclaration>>,
}

pub enum PengTypeExpression {
    Nil,
    Int,
    Uint,
    Float32,
    Float64,
    Byte,
    Bool,
    String,
    Object,
    Type,
    Module,
    Function,
    Operation,
    Thread,
    Any,
    UnionType,
    Vector(Box<PengPositionedTypeExpression>),
    TypeLiteral(PengTypeLiteral),
    Custom(Box<PengPositionedExpression>),
    Union(Vec<PengPositionedTypeExpression>),
}

} // verus!
