use vstd::prelude::*;
use crate::heap::PengHeapValue;
use crate::instruction::PengInstruction;
use crate::typing::PengType;
use crate::lexer::token::PengToken;
use crate::position::PengPosition;
use crate::utils::{PengHeapPtr, PengNamePoolPtr};

verus! {

/// What went wrong, with where it happened when that is known.
#[derive(Debug)]
pub enum PengError {
    Stack(Vec<PengError>),
    InvalidConversion { from: PengHeapValue, to: PengType },
    InvalidBinaryOperationCell { operator: String, left: crate::call::PengCell, right: crate::call::PengCell },
    Position(PengPosition),
    PositionedMessage { message: String, position: PengPosition },
    PositionedError { error: Box<PengError>, position: PengPosition },
    InternalError(String),
    NotImplemented(String),
    InvalidState(String),
    NameNotFound(PengNamePoolPtr),
    NameAlreadyDefined(PengNamePoolPtr),
    LocalNotFound(usize),
    GlobalNotFound(PengNamePoolPtr),
    AttributeNotFound(PengNamePoolPtr),
    AttributeAlreadyDefined(PengNamePoolPtr),
    HeapValueNotFound(PengHeapPtr),
    InvalidReference(PengHeapPtr),
    ExpectedReference,
    DanglingReference(PengHeapPtr),
    CannotAssignImmutable,
    CannotMutateImmutable,
    CannotReadUninitialized,
    CannotAssignUninitialized,
    ExpectedInitialized,
    ExpectedMutable,
    ExpectedImmutable,
    TypeMismatch { expected: String, found: String },
    CannotInferType,
    ExpectedType,
    ExpectedValue,
    ExpectedFunction,
    ExpectedThread,
    ExpectedObject,
    ExpectedVector,
    ExpectedModule,
    ExpectedOperation,
    ExpectedUnion,
    ExpectedNumber,
    InvalidUnaryOperation { operator: String, operand: String },
    DivisionByZero,
    ArithmeticOverflow,
    ArithmeticUnderflow,
    NegativeUnsignedResult,
    IndexOutOfBounds { index: usize, len: usize },
    CannotIndexValue(String),
    InvalidIndexTypeValue(PengHeapValue),
    CannotSetIndex(String),
    WrongArgumentCount { expected: usize, found: usize },
    TooManyArguments { expected: usize, found: usize },
    CannotCallValue(String),
    ReturnOutsideFunction,
    MissingReturnValue,
    StackUnderflow,
    StackOverflow,
    EmptyStack,
    FrameNotFound,
    EmptyFrameStack,
    InvalidFrame,
    ProgramCounterOutOfBounds { pc: usize, len: usize },
    InstructionExpectedConstant,
    InvalidInstruction(PengInstruction),
    ThreadNotFound(PengHeapPtr),
    CurrentThreadNotFound,
    SyntaxError(String),
    UnexpectedToken(PengToken),
    ExpectedToken { expected: String, found: String },
    InvalidAssignmentTarget,
    InvalidLValue,
    BreakOutsideLoop,
    ContinueOutsideLoop,
    RaiseOutsideTry,
    Raised(Box<PengError>),
}

/// When `equals` holds of two errors: stacks of pairwise equal errors, equal positions,
/// equal messages at equal positions, equal errors at equal positions. Errors of any other
/// kind are never equal, not even to themselves.
pub open spec fn errors_equal(a: PengError, b: PengError) -> bool
    decreases a, 1nat,
{
    match (a, b) {
        (PengError::Stack(l), PengError::Stack(r)) => stacks_equal(l@, r@),
        (PengError::Position(l), PengError::Position(r)) => l == r,
        (
            PengError::PositionedMessage { message: lm, position: lp },
            PengError::PositionedMessage { message: rm, position: rp },
        ) => lm@ == rm@ && lp == rp,
        (
            PengError::PositionedError { error: le, position: lp },
            PengError::PositionedError { error: re, position: rp },
        ) => errors_equal(*le, *re) && lp == rp,
        _ => false,
    }
}

/// Two stacks of the same height whose errors are pairwise equal.
pub open spec fn stacks_equal(l: Seq<PengError>, r: Seq<PengError>) -> bool
    decreases l, 0nat,
{
    if l.len() != r.len() {
        false
    } else if l.len() == 0 {
        true
    } else {
        stacks_equal(l.drop_last(), r.drop_last()) && errors_equal(l.last(), r.last())
    }
}

impl PengError {
    /// Adds `e` on top of this error: a stack grows by `e`; any other error becomes the
    /// stack of itself and `e`.
    pub fn push(self, e: PengError) -> (res: Self)
        ensures
            match self {
                PengError::Stack(s) => res matches PengError::Stack(r) && r@ == s@.push(e),
                _ => res matches PengError::Stack(r) && r@ == seq![self, e],
            },
    {
        match self {
            Self::Stack(mut s) => {
                s.push(e);
                Self::Stack(s)
            },
            _ => {
                let mut s = Vec::new();
                s.push(self);
                s.push(e);
                proof {
                    assert(s@ =~= seq![self, e]);
                }
                Self::Stack(s)
            },
        }
    }

    pub fn new_position(position: PengPosition) -> (res: Self)
        ensures
            res == PengError::Position(position),
    {
        Self::Position(position)
    }

    pub fn new_positioned_message(message: String, position: PengPosition) -> (res: Self)
        ensures
            res == (PengError::PositionedMessage { message, position }),
    {
        Self::PositionedMessage { message: message, position: position }
    }

    pub fn new_positioned_error(error: PengError, position: PengPosition) -> (res: Self)
        ensures
            res == (PengError::PositionedError { error: Box::new(error), position }),
    {
        Self::PositionedError { error: Box::new(error), position: position }
    }

    /// See `errors_equal`.
    pub fn equals(&self, rhs: &Self) -> (res: bool)
        ensures
            res == errors_equal(*self, *rhs),
        decreases *self, 1nat,
    {
        match (self, rhs) {
            (Self::Stack(left), Self::Stack(right)) => stack_equals(left, right),
            (Self::Position(left), Self::Position(right)) => left.equals(right),
            (
                Self::PositionedMessage { message: left_message, position: left_position },
                Self::PositionedMessage { message: right_message, position: right_position },
            ) => *left_message == *right_message && left_position.equals(right_position),
            (
                Self::PositionedError { error: left_error, position: left_position },
                Self::PositionedError { error: right_error, position: right_position },
            ) => left_error.equals(right_error) && left_position.equals(right_position),
            _ => false,
        }
    }
}

fn stack_equals(left: &Vec<PengError>, right: &Vec<PengError>) -> (res: bool)
    ensures
        res == stacks_equal(left@, right@),
    decreases left, 0nat,
{
    if left.len() != right.len() {
        return false;
    }
    let n = left.len();
    let mut i: usize = 0;
    while i < n
        invariant
            n == left@.len(),
            n == right@.len(),
            i <= n,
            stacks_equal(left@.take(i as int), right@.take(i as int)),
        decreases n - i,
    {
        assert(left@.take(i + 1).drop_last() =~= left@.take(i as int));
        assert(right@.take(i + 1).drop_last() =~= right@.take(i as int));
        proof {
            assert(decreases_to!(left => left@));
            assert(decreases_to!(left@ => left@[i as int]));
        }
        if !left[i].equals(&right[i]) {
            proof {
                if stacks_equal(left@, right@) {
                    lemma_stacks_equal_prefix(left@, right@, i + 1);
                    assert(left@.take(i + 1).last() == left@[i as int]);
                    assert(right@.take(i + 1).last() == right@[i as int]);
                }
            }
            return false;
        }
        i = i + 1;
    }
    assert(left@.take(n as int) =~= left@);
    assert(right@.take(n as int) =~= right@);
    true
}

/// Stacks that are equal are equal on every prefix.
proof fn lemma_stacks_equal_prefix(l: Seq<PengError>, r: Seq<PengError>, k: int)
    requires
        l.len() == r.len(),
        0 <= k <= l.len(),
        stacks_equal(l, r),
    ensures
        stacks_equal(l.take(k), r.take(k)),
    decreases l.len() - k,
{
    if k == l.len() {
        assert(l.take(k) =~= l);
        assert(r.take(k) =~= r);
    } else {
        assert(l.drop_last().take(k) =~= l.take(k));
        assert(r.drop_last().take(k) =~= r.take(k));
        lemma_stacks_equal_prefix(l.drop_last(), r.drop_last(), k);
    }
}

} // verus!
