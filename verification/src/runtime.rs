use vstd::prelude::*;
use crate::binding::PengBinded;
use crate::call::{copy_cell, PengCallStack, PengCell};
use crate::error::PengError;
use crate::frame::PengFrame;
use crate::function::PengBytecodeFunctionParams;
use crate::heap::{
    call_effect, call_function, functions_kept, lemma_runnable_kept, no_max_variadic, runnable_heap, PengFunctionKind,
    PengHeap, PengHeapValue, PengHeapValueV,
};
use crate::utils::PengHeapPtr;
use crate::numeric::{binary_numeric_cells, numeric_result, PengNumericOperation, PengNumericResult};
use crate::position::PengPosition;
use crate::instruction::PengInstruction;
use crate::names::PengNamePool;
use crate::attributes::{access_effect, execute_access_instruction, execute_get_index, execute_set_index, index_effect, set_index_effect};

verus! {

/// What running one of the stack and control instructions gave: the thread goes on, the
/// current function returned a value, or the instruction is another one, left to the
/// rest of the runtime.
pub enum PengStackStep {
    Done,
    Returned(PengBinded<PengCell>),
    NotHandled,
}

/// Where local `local` of the current frame stands on the stack, or why it cannot be found.
pub open spec fn local_index(t: PengCallStack, local: usize) -> Result<int, PengError> {
    if t.frames@.len() == 0 {
        Err(PengError::FrameNotFound)
    } else if t.frames@.last().base + local > usize::MAX {
        Err(PengError::InvalidFrame)
    } else if t.frames@.last().base + local >= t.stack@.len() {
        Err(PengError::LocalNotFound(local))
    } else {
        Ok(t.frames@.last().base + local)
    }
}

/// `e` with the failed instruction on top of it.
pub open spec fn failed_in(r: Result<PengStackStep, PengError>, e: PengError, i: PengInstruction) -> bool {
    r matches Err(PengError::Stack(v)) && v@ == seq![e, PengError::InvalidInstruction(i)]
}

/// `g` is `f` with its program counter at `pc`.
pub open spec fn with_counter(f: PengFrame, g: PengFrame, pc: usize) -> bool {
    &&& g.program_counter == pc
    &&& g.base == f.base
    &&& g.procedure == f.procedure
    &&& g.params_count == f.params_count
    &&& g.is_try == f.is_try
    &&& g.reserved_locals@ == f.reserved_locals@
    &&& g.call_position == f.call_position
}

/// `g` is `f` with `local` added to its reserved locals.
pub open spec fn with_reserved(f: PengFrame, g: PengFrame, local: usize) -> bool {
    &&& g.program_counter == f.program_counter
    &&& g.base == f.base
    &&& g.procedure == f.procedure
    &&& g.params_count == f.params_count
    &&& g.is_try == f.is_try
    &&& g.reserved_locals@ == f.reserved_locals@.push(local)
    &&& g.call_position == f.call_position
}

/// The frames with the current one's program counter at `pc`.
pub open spec fn jumped(old_frames: Seq<PengFrame>, new_frames: Seq<PengFrame>, pc: usize) -> bool {
    &&& new_frames.len() == old_frames.len()
    &&& new_frames.drop_last() == old_frames.drop_last()
    &&& with_counter(old_frames.last(), new_frames.last(), pc)
}

fn find_local(t: &PengCallStack, local: usize) -> (res: Result<usize, PengError>)
    ensures
        match local_index(*t, local) {
            Ok(k) => res == Ok::<usize, PengError>(k as usize),
            Err(e) => res == Err::<usize, PengError>(e),
        },
{
    if t.frames.len() == 0 {
        return Err(PengError::FrameNotFound);
    }
    let base = t.frames[t.frames.len() - 1].base;
    match base.checked_add(local) {
        Some(index) => if index < t.stack.len() {
            Ok(index)
        } else {
            Err(PengError::LocalNotFound(local))
        },
        None => Err(PengError::InvalidFrame),
    }
}

fn contains_local(locals: &Vec<usize>, local: usize) -> (res: bool)
    ensures
        res == locals@.contains(local),
{
    let mut i: usize = 0;
    while i < locals.len()
        invariant
            i <= locals@.len(),
            forall|j: int| 0 <= j < i ==> locals@[j] != local,
        decreases locals@.len() - i,
    {
        if locals[i] == local {
            return true;
        }
        i = i + 1;
    }
    false
}

fn reserve_local(t: &mut PengCallStack, local: usize) -> (res: Result<(), PengError>)
    ensures
        stack_instruction_effect(
            *old(t),
            *final(t),
            PengInstruction::ReserveLocal(local),
            0,
            match res {
                Ok(()) => Ok(PengStackStep::Done),
                Err(e) => Err(e),
            },
        ),
{
    let instruction = PengInstruction::ReserveLocal(local);
    let n = t.frames.len();
    if n == 0 {
        return Err(PengError::FrameNotFound.push(PengError::InvalidInstruction(instruction)));
    }
    if contains_local(&t.frames[n - 1].reserved_locals, local) {
        return Ok(());
    }
    let index = match t.frames[n - 1].base.checked_add(local) {
        Some(index) => index,
        None => return Err(PengError::InvalidFrame.push(PengError::InvalidInstruction(instruction))),
    };
    if index > t.stack.len() {
        return Err(PengError::LocalNotFound(local).push(PengError::InvalidInstruction(instruction)));
    }
    t.stack.insert(index, PengBinded::Mutable(PengCell::Nil));
    let mut f = t.frames.pop().unwrap();
    f.reserved_locals.push(local);
    t.frames.push(f);
    assert(t.frames@.drop_last() =~= old(t).frames@.drop_last());
    Ok(())
}

fn set_counter(t: &mut PengCallStack, pc: usize)
    requires
        old(t).frames@.len() > 0,
    ensures
        jumped(old(t).frames@, final(t).frames@, pc),
        final(t).stack@ == old(t).stack@,
{
    let mut f = t.frames.pop().unwrap();
    f.program_counter = pc;
    t.frames.push(f);
    assert(t.frames@.drop_last() =~= old(t).frames@.drop_last());
}

/// What running one of the stack and control instructions does to the thread `t0`,
/// giving `t1` and `res`.
pub open spec fn stack_instruction_effect(
    t0: PengCallStack,
    t1: PengCallStack,
    instruction: PengInstruction,
    frame_base: usize,
    res: Result<PengStackStep, PengError>,
) -> bool {
    let s = t0.stack@;
    let fs = t0.frames@;
    let t = t0;
    match instruction {
        PengInstruction::PushLocal(l) => match local_index(t, l) {
            Err(e) => failed_in(res, e, instruction) && t1 == t,
            Ok(k) => res matches Ok(PengStackStep::Done) && t1.stack@ == s.push(s[k])
                && t1.frames@ == fs,
        },
        PengInstruction::StoreLocal(l) => if s.len() == 0 {
            res == Err::<PengStackStep, PengError>(PengError::InvalidInstruction(instruction))
                && t1 == t
        } else if frame_base + l > usize::MAX {
            res matches Err(PengError::InvalidFrame) && t1 == t
        } else if s.len() - 1 == frame_base + l {
            res matches Ok(PengStackStep::Done) && t1 == t
        } else {
            match local_index(t, l) {
                Err(e) => failed_in(res, e, instruction) && t1 == t,
                Ok(k) => if s[k] is Immutable {
                    res matches Err(PengError::CannotMutateImmutable) && t1 == t
                } else {
                    res matches Ok(PengStackStep::Done) && t1.stack@ == s.update(
                        k,
                        s.last(),
                    ).drop_last() && t1.frames@ == fs
                },
            }
        },
        PengInstruction::ReserveLocal(l) => if fs.len() == 0 {
            failed_in(res, PengError::FrameNotFound, instruction) && t1 == t
        } else if fs.last().reserved_locals@.contains(l) {
            res matches Ok(PengStackStep::Done) && t1 == t
        } else if fs.last().base + l > usize::MAX {
            failed_in(res, PengError::InvalidFrame, instruction) && t1 == t
        } else if fs.last().base + l > s.len() {
            failed_in(res, PengError::LocalNotFound(l), instruction) && t1 == t
        } else {
            res matches Ok(PengStackStep::Done) && t1.stack@ == s.insert(
                fs.last().base + l,
                PengBinded::Mutable(PengCell::Nil),
            ) && t1.frames@.len() == fs.len() && t1.frames@.drop_last() == fs.drop_last() && with_reserved(
                fs.last(),
                t1.frames@.last(),
                l,
            )
        },
        PengInstruction::Duplicate => if s.len() == 0 {
            failed_in(res, PengError::StackUnderflow, instruction) && t1 == t
        } else {
            res matches Ok(PengStackStep::Done) && t1.stack@ == s.push(s.last())
                && t1.frames@ == fs
        },
        PengInstruction::Pop => if s.len() == 0 {
            failed_in(res, PengError::StackUnderflow, instruction) && t1 == t
        } else {
            res matches Ok(PengStackStep::Done) && t1.stack@ == s.drop_last()
                && t1.frames@ == fs
        },
        PengInstruction::Jump(pc) => if fs.len() == 0 {
            failed_in(res, PengError::FrameNotFound, instruction) && t1 == t
        } else {
            res matches Ok(PengStackStep::Done) && t1.stack@ == s && jumped(
                fs,
                t1.frames@,
                pc,
            )
        },
        PengInstruction::JumpIfTrue(pc) | PengInstruction::JumpIfFalse(pc) => if s.len() == 0 {
            failed_in(res, PengError::StackUnderflow, instruction) && t1 == t
        } else {
            match s.last().bound() {
                PengCell::Bool(b) => {
                    let taken = if instruction is JumpIfTrue {
                        b
                    } else {
                        !b
                    };
                    t1.stack@ == s.drop_last() && if !taken {
                        res matches Ok(PengStackStep::Done) && t1.frames@ == fs
                    } else if fs.len() == 0 {
                        failed_in(res, PengError::FrameNotFound, instruction) && t1.frames@
                            == fs
                    } else {
                        res matches Ok(PengStackStep::Done) && jumped(fs, t1.frames@, pc)
                    }
                },
                _ => res == Err::<PengStackStep, PengError>(PengError::InvalidInstruction(instruction))
                    && t1 == t,
            }
        },
        PengInstruction::Return => if s.len() == 0 {
            failed_in(res, PengError::StackUnderflow, instruction) && t1 == t
        } else {
            res == Ok::<PengStackStep, PengError>(PengStackStep::Returned(s.last())) && t1 == t
        },
        _ => res matches Ok(PengStackStep::NotHandled) && t1 == t,
    }
}

/// Runs one of the instructions that only move values on the stack and the current
/// frame: pushing, storing and reserving locals, duplicating and dropping the top, jumps,
/// and returning. `frame_base` is where the current frame's locals start.
pub fn execute_stack_instruction(
    instruction: PengInstruction,
    frame_base: usize,
    thread: &mut PengCallStack,
) -> (res: Result<PengStackStep, PengError>)
    ensures
        stack_instruction_effect(*old(thread), *final(thread), instruction, frame_base, res),
{
    match instruction {
        PengInstruction::PushLocal(local) => match find_local(thread, local) {
            Ok(index) => {
                let cell = copy_cell(&thread.stack[index]);
                thread.stack.push(cell);
                Ok(PengStackStep::Done)
            },
            Err(e) => Err(e.push(PengError::InvalidInstruction(instruction))),
        },
        PengInstruction::StoreLocal(local) => {
            let stack_len = thread.stack.len();
            if stack_len == 0 {
                return Err(PengError::InvalidInstruction(instruction));
            }
            let value_index = stack_len - 1;
            let target_index = match frame_base.checked_add(local) {
                Some(index) => index,
                None => return Err(PengError::InvalidFrame),
            };
            if value_index == target_index {
                return Ok(PengStackStep::Done);
            }
            let index = match find_local(thread, local) {
                Ok(index) => index,
                Err(e) => return Err(e.push(PengError::InvalidInstruction(instruction))),
            };
            match thread.stack[index] {
                PengBinded::Immutable(_) => return Err(PengError::CannotMutateImmutable),
                PengBinded::Mutable(_) => {},
            }
            let value = copy_cell(&thread.stack[value_index]);
            thread.stack.set(index, value);
            let _ = thread.stack.pop();
            Ok(PengStackStep::Done)
        },
        PengInstruction::ReserveLocal(local) => match reserve_local(thread, local) {
            Ok(()) => Ok(PengStackStep::Done),
            Err(e) => Err(e),
        },
        PengInstruction::Duplicate => {
            if thread.stack.len() == 0 {
                return Err(PengError::StackUnderflow.push(PengError::InvalidInstruction(instruction)));
            }
            let cell = copy_cell(&thread.stack[thread.stack.len() - 1]);
            thread.stack.push(cell);
            Ok(PengStackStep::Done)
        },
        PengInstruction::Pop => {
            if thread.stack.len() == 0 {
                return Err(PengError::StackUnderflow.push(PengError::InvalidInstruction(instruction)));
            }
            let _ = thread.stack.pop();
            Ok(PengStackStep::Done)
        },
        PengInstruction::Jump(target) => {
            if thread.frames.len() == 0 {
                return Err(PengError::FrameNotFound.push(PengError::InvalidInstruction(instruction)));
            }
            set_counter(thread, target);
            Ok(PengStackStep::Done)
        },
        PengInstruction::JumpIfTrue(address) | PengInstruction::JumpIfFalse(address) => {
            if thread.stack.len() == 0 {
                return Err(PengError::StackUnderflow.push(PengError::InvalidInstruction(instruction)));
            }
            let condition = match thread.stack[thread.stack.len() - 1].value() {
                PengCell::Bool(value) => *value,
                _ => return Err(PengError::InvalidInstruction(instruction)),
            };
            let _ = thread.stack.pop();
            let taken = match instruction {
                PengInstruction::JumpIfTrue(_) => condition,
                _ => !condition,
            };
            if taken {
                if thread.frames.len() == 0 {
                    return Err(PengError::FrameNotFound.push(PengError::InvalidInstruction(instruction)));
                }
                set_counter(thread, address);
            }
            Ok(PengStackStep::Done)
        },
        PengInstruction::Return => {
            if thread.stack.len() == 0 {
                return Err(PengError::StackUnderflow.push(PengError::InvalidInstruction(instruction)));
            }
            Ok(PengStackStep::Returned(copy_cell(&thread.stack[thread.stack.len() - 1])))
        },
        _ => Ok(PengStackStep::NotHandled),
    }
}

/// What the value a cell stands for is: what a reference points to, or the cell itself.
pub open spec fn value_of_cell(heap: Map<usize, PengHeapValueV>, c: PengCell) -> PengHeapValueV {
    match c {
        PengCell::Reference(p) => heap[p.0],
        _ => PengHeapValueV::Cell(c),
    }
}

/// A new value is put on the heap at `at`, and a reference to it is pushed.
pub open spec fn allocated(
    h0: Map<usize, PengHeapValueV>,
    h1: Map<usize, PengHeapValueV>,
    at: int,
    v: PengHeapValueV,
    s1: Seq<PengBinded<PengCell>>,
    s: Seq<PengBinded<PengCell>>,
) -> bool {
    &&& !h0.contains_key(at as usize)
    &&& h1 == h0.insert(at as usize, v)
    &&& s1 == s.push(PengBinded::Mutable(PengCell::Reference(PengHeapPtr(at as usize))))
}

/// The number a cell stands for: itself, or the number cell a reference points to;
/// `None` for anything else; an error for a reference to nothing.
pub open spec fn resolved(h: Map<usize, PengHeapValueV>, c: PengCell) -> Result<Option<PengCell>, PengError> {
    match c {
        PengCell::Int(_) | PengCell::Uint(_) | PengCell::Byte(_) | PengCell::Float32(_) | PengCell::Float64(_) => Ok(
            Some(c),
        ),
        PengCell::Reference(p) => if !h.contains_key(p.0) {
            Err(PengError::HeapValueNotFound(p))
        } else {
            match h[p.0] {
                PengHeapValueV::Cell(v) => match v {
                    PengCell::Int(_) | PengCell::Uint(_) | PengCell::Byte(_) | PengCell::Float32(_)
                    | PengCell::Float64(_) => Ok(Some(v)),
                    _ => Ok(None),
                },
                _ => Ok(None),
            }
        },
        _ => Ok(None),
    }
}

/// The arithmetic an instruction asks for.
pub open spec fn numeric_operation(i: PengInstruction) -> Option<PengNumericOperation> {
    match i {
        PengInstruction::Add => Some(PengNumericOperation::Add),
        PengInstruction::Subtract => Some(PengNumericOperation::Subtract),
        PengInstruction::Multiply => Some(PengNumericOperation::Multiply),
        PengInstruction::Divide => Some(PengNumericOperation::Divide),
        PengInstruction::Power => Some(PengNumericOperation::Power),
        PengInstruction::Remainder => Some(PengNumericOperation::Remainder),
        _ => None,
    }
}

/// Arithmetic on the two values on top of the stack: a number result replaces them; an
/// undefined one fails; values that are not numbers, and floating-point computation, are
/// left to the rest of the runtime.
pub open spec fn arithmetic_effect(
    h: Map<usize, PengHeapValueV>,
    t0: PengCallStack,
    t1: PengCallStack,
    instruction: PengInstruction,
    op: PengNumericOperation,
    res: Result<PengStackStep, PengError>,
) -> bool {
    let s = t0.stack@;
    if s.len() < 2 {
        failed_in(res, PengError::StackUnderflow, instruction) && t1 == t0
    } else {
        match (resolved(h, s[s.len() - 2].bound()), resolved(h, s[s.len() - 1].bound())) {
            (Err(e), _) => failed_in(res, e, instruction) && t1 == t0,
            (Ok(None), _) => res matches Ok(PengStackStep::NotHandled) && t1 == t0,
            (Ok(Some(_)), Err(e)) => failed_in(res, e, instruction) && t1 == t0,
            (Ok(Some(_)), Ok(None)) => res matches Ok(PengStackStep::NotHandled) && t1 == t0,
            (Ok(Some(l)), Ok(Some(r))) => match numeric_result(l, r, op) {
                PengNumericResult::Value(c) => res matches Ok(PengStackStep::Done) && t1.frames@ == t0.frames@
                    && t1.stack@ == s.take(s.len() - 2).push(PengBinded::Mutable(c)),
                PengNumericResult::Undefined => res == Err::<PengStackStep, PengError>(
                    PengError::InvalidInstruction(instruction),
                ) && t1 == t0,
                PengNumericResult::NeedsFloat => res matches Ok(PengStackStep::NotHandled) && t1 == t0,
            },
        }
    }
}

/// `!`, `-`, and `&&`/`||` without short-circuit on the top of the stack: booleans and
/// integers are computed (a float is negated by its sign bit; negating the smallest
/// integer fails); anything else is left to the rest of the runtime.
pub open spec fn logic_effect(t0: PengCallStack, t1: PengCallStack, instruction: PengInstruction, res: Result<
    PengStackStep,
    PengError,
>) -> bool {
    let s = t0.stack@;
    let one = |c: PengCell| res matches Ok(PengStackStep::Done) && t1.frames@ == t0.frames@ && t1.stack@ == s.drop_last().push(
        PengBinded::Mutable(c),
    );
    let two = |c: PengCell| res matches Ok(PengStackStep::Done) && t1.frames@ == t0.frames@ && t1.stack@ == s.take(
        s.len() - 2,
    ).push(PengBinded::Mutable(c));
    let left = res matches Ok(PengStackStep::NotHandled) && t1 == t0;
    match instruction {
        PengInstruction::Not => if s.len() == 0 {
            failed_in(res, PengError::StackUnderflow, instruction) && t1 == t0
        } else {
            match s.last().bound() {
                PengCell::Bool(b) => one(PengCell::Bool(!b)),
                _ => left,
            }
        },
        PengInstruction::Negate => if s.len() == 0 {
            failed_in(res, PengError::StackUnderflow, instruction) && t1 == t0
        } else {
            match s.last().bound() {
                PengCell::Int(v) => if v == isize::MIN {
                    res == Err::<PengStackStep, PengError>(PengError::InvalidInstruction(instruction)) && t1 == t0
                } else {
                    one(PengCell::Int((-v) as isize))
                },
                PengCell::Float32(b) => one(PengCell::Float32(b ^ 0x8000_0000u32)),
                PengCell::Float64(b) => one(PengCell::Float64(b ^ 0x8000_0000_0000_0000u64)),
                _ => left,
            }
        },
        _ => if s.len() < 2 {
            failed_in(res, PengError::StackUnderflow, instruction) && t1 == t0
        } else {
            match (s[s.len() - 2].bound(), s[s.len() - 1].bound()) {
                (PengCell::Bool(a), PengCell::Bool(b)) => two(
                    PengCell::Bool(
                        if instruction is And {
                            a && b
                        } else {
                            a || b
                        },
                    ),
                ),
                _ => left,
            }
        },
    }
}

/// The cell a stack cell stands for in a comparison: itself, or the cell a reference
/// points to; `None` when it points to another kind of value; an error for a reference to
/// nothing.
pub open spec fn compared_cell(h: Map<usize, PengHeapValueV>, c: PengCell) -> Result<Option<PengCell>, PengError> {
    match c {
        PengCell::Reference(p) => if !h.contains_key(p.0) {
            Err(PengError::HeapValueNotFound(p))
        } else {
            match h[p.0] {
                PengHeapValueV::Cell(v) => Ok(Some(v)),
                _ => Ok(None),
            }
        },
        _ => Ok(Some(c)),
    }
}

/// What a comparison instruction gives on two cells, or `None` where the builtin
/// comparison does not apply (a reference, a non-number ordering, a float).
pub open spec fn comparison_of(i: PengInstruction, l: PengCell, r: PengCell) -> Option<bool> {
    if crate::cell::float_comparison(l, r) || l is Reference || r is Reference {
        None
    } else {
        match i {
            PengInstruction::Equals => Some(crate::cell::cells_equal(l, r)),
            PengInstruction::NotEquals => Some(!crate::cell::cells_equal(l, r)),
            PengInstruction::GreaterThan => crate::cell::cells_compare(l, r, true, false),
            PengInstruction::GreaterEqualsThan => crate::cell::cells_compare(l, r, true, true),
            PengInstruction::LessThan => crate::cell::cells_compare(l, r, false, false),
            _ => crate::cell::cells_compare(l, r, false, true),
        }
    }
}

/// A comparison of the two values on top of the stack: for cells where the builtin
/// comparison applies, a boolean replaces them; anything else is left to the rest of the
/// runtime.
pub open spec fn comparison_effect(
    h: Map<usize, PengHeapValueV>,
    t0: PengCallStack,
    t1: PengCallStack,
    instruction: PengInstruction,
    res: Result<PengStackStep, PengError>,
) -> bool {
    let s = t0.stack@;
    if s.len() < 2 {
        failed_in(res, PengError::StackUnderflow, instruction) && t1 == t0
    } else {
        match (compared_cell(h, s[s.len() - 2].bound()), compared_cell(h, s[s.len() - 1].bound())) {
            (Err(e), _) => failed_in(res, e, instruction) && t1 == t0,
            (Ok(_), Err(e)) => failed_in(res, e, instruction) && t1 == t0,
            (Ok(Some(l)), Ok(Some(r))) => match comparison_of(instruction, l, r) {
                Some(b) => res matches Ok(PengStackStep::Done) && t1.frames@ == t0.frames@ && t1.stack@ == s.take(
                    s.len() - 2,
                ).push(PengBinded::Mutable(PengCell::Bool(b))),
                None => res matches Ok(PengStackStep::NotHandled) && t1 == t0,
            },
            _ => res matches Ok(PengStackStep::NotHandled) && t1 == t0,
        }
    }
}

/// What running an instruction does to the heap `h0` (next address `next`) and the thread
/// `t0`, giving `h1`, `t1` and `res`.
pub open spec fn instruction_effect(
    h0: Map<usize, PengHeapValueV>,
    next: int,
    t0: PengCallStack,
    h1: Map<usize, PengHeapValueV>,
    t1: PengCallStack,
    instruction: PengInstruction,
    frame_base: usize,
    constant: Option<PengCell>,
    names: Seq<Seq<char>>,
    res: Result<PengStackStep, PengError>,
) -> bool {
    let s = t0.stack@;
    match instruction {
        PengInstruction::PushString(p) => if p.0 < names.len() {
            res matches Ok(PengStackStep::Done) && t1.frames@ == t0.frames@ && allocated(
                h0,
                h1,
                next,
                PengHeapValueV::String(names[p.0 as int]),
                t1.stack@,
                s,
            )
        } else {
            res == Err::<PengStackStep, PengError>(PengError::NameNotFound(p)) && t1 == t0 && h1 == h0
        },
        PengInstruction::PushConst(_) => match constant {
            Some(c) => res matches Ok(PengStackStep::Done) && h1 == h0 && t1.frames@ == t0.frames@ && t1.stack@
                == s.push(PengBinded::Mutable(c)),
            None => res == Err::<PengStackStep, PengError>(PengError::InstructionExpectedConstant) && t1 == t0
                && h1 == h0,
        },
        PengInstruction::PushHeap(p) => if !h0.contains_key(p.0) {
            res == Err::<PengStackStep, PengError>(PengError::HeapValueNotFound(p)) && t1 == t0 && h1 == h0
        } else {
            res matches Ok(PengStackStep::Done) && h1 == h0 && t1.frames@ == t0.frames@ && t1.stack@ == s.push(
                PengBinded::Mutable(
                    match h0[p.0] {
                        PengHeapValueV::Cell(c) => c,
                        _ => PengCell::Reference(p),
                    },
                ),
            )
        },
        PengInstruction::PushHeapRef(p) => res matches Ok(PengStackStep::Done) && h1 == h0 && t1.frames@
            == t0.frames@ && t1.stack@ == s.push(PengBinded::Mutable(PengCell::Reference(p))),
        PengInstruction::StoreHeap => if s.len() < 2 {
            failed_in(res, PengError::StackUnderflow, instruction) && t1 == t0 && h1 == h0
        } else {
            match s[s.len() - 2].bound() {
                PengCell::Reference(p) => {
                    let top = s.last().bound();
                    if top matches PengCell::Reference(q) && !h0.contains_key(q.0) {
                        failed_in(res, PengError::HeapValueNotFound(top->Reference_0), instruction) && t1 == t0
                            && h1 == h0
                    } else if !h0.contains_key(p.0) {
                        failed_in(res, PengError::HeapValueNotFound(p), instruction) && h1 == h0
                            && t1.frames@ == t0.frames@ && t1.stack@ == s.take(s.len() - 2)
                    } else {
                        res matches Ok(PengStackStep::Done) && h1 == h0.insert(p.0, value_of_cell(h0, top))
                            && t1.frames@ == t0.frames@ && t1.stack@ == s.take(s.len() - 2)
                    }
                },
                _ => res matches Err(PengError::ExpectedReference) && t1 == t0 && h1 == h0,
            }
        },
        PengInstruction::CreateEmptyObject => res matches Ok(PengStackStep::Done) && t1.frames@ == t0.frames@
            && allocated(h0, h1, next, PengHeapValueV::Object(Seq::empty()), t1.stack@, s),
        PengInstruction::CreateEmptyModule => res matches Ok(PengStackStep::Done) && t1.frames@ == t0.frames@
            && allocated(h0, h1, next, PengHeapValueV::Module(Seq::empty()), t1.stack@, s),
        PengInstruction::CreateVector(n) => if s.len() < n {
            failed_in(res, PengError::StackUnderflow, instruction) && t1 == t0 && h1 == h0
        } else {
            res matches Ok(PengStackStep::Done) && t1.frames@ == t0.frames@ && allocated(
                h0,
                h1,
                next,
                PengHeapValueV::Vector(s.skip(s.len() - n)),
                t1.stack@,
                s.take(s.len() - n),
            )
        },
        PengInstruction::FunctionCall(n) => (call_effect(h0, next, t0, h1, t1, n, false, Ok(())) && res matches Ok(
            PengStackStep::Done,
        )) || exists|e: PengError| call_effect(h0, next, t0, h1, t1, n, false, Err(e)) && #[trigger] failed_in(
            res,
            e,
            instruction,
        ),
        PengInstruction::TryFunctionCall(n) => (call_effect(h0, next, t0, h1, t1, n, true, Ok(())) && res matches Ok(
            PengStackStep::Done,
        )) || exists|e: PengError| call_effect(h0, next, t0, h1, t1, n, true, Err(e)) && #[trigger] failed_in(
            res,
            e,
            instruction,
        ),
        PengInstruction::Add | PengInstruction::Subtract | PengInstruction::Multiply | PengInstruction::Divide
        | PengInstruction::Power | PengInstruction::Remainder => h1 == h0 && arithmetic_effect(
            h0,
            t0,
            t1,
            instruction,
            numeric_operation(instruction)->0,
            res,
        ),
        PengInstruction::Not | PengInstruction::Negate | PengInstruction::And | PengInstruction::Or => h1 == h0
            && logic_effect(t0, t1, instruction, res),
        PengInstruction::MakeImmutable | PengInstruction::GetConstAttribute(_) | PengInstruction::SetConstAttribute(_)
        | PengInstruction::GetConstMember(_) | PengInstruction::SetConstMember(_) | PengInstruction::Concat => access_effect(
            h0,
            next,
            t0,
            h1,
            t1,
            instruction,
            res,
        ),
        PengInstruction::GetIndex => index_effect(h0, next, t0, h1, t1, res),
        PengInstruction::SetIndex => set_index_effect(h0, t0, h1, t1, res),
        PengInstruction::Equals | PengInstruction::NotEquals | PengInstruction::GreaterThan
        | PengInstruction::GreaterEqualsThan | PengInstruction::LessThan | PengInstruction::LessEqualsThan => h1 == h0
            && comparison_effect(h0, t0, t1, instruction, res),
        _ => h1 == h0 && stack_instruction_effect(t0, t1, instruction, frame_base, res),
    }
}

fn resolve_numeric_cell(heap: &PengHeap, cell: PengCell) -> (res: Result<Option<PengCell>, PengError>)
    ensures
        res == resolved(heap@, cell),
{
    match cell {
        PengCell::Int(_) | PengCell::Uint(_) | PengCell::Byte(_) | PengCell::Float32(_) | PengCell::Float64(_) => Ok(
            Some(cell),
        ),
        PengCell::Reference(ptr) => match heap.get_heap(ptr) {
            Some(PengHeapValue::Cell(value)) => match value {
                PengCell::Int(_) | PengCell::Uint(_) | PengCell::Byte(_) | PengCell::Float32(_)
                | PengCell::Float64(_) => Ok(Some(*value)),
                _ => Ok(None),
            },
            Some(_) => Ok(None),
            None => Err(PengError::HeapValueNotFound(ptr)),
        },
        _ => Ok(None),
    }
}

fn execute_binary_numeric_operation(
    heap: &PengHeap,
    thread: &mut PengCallStack,
    instruction: PengInstruction,
    operation: PengNumericOperation,
) -> (res: Result<PengStackStep, PengError>)
    ensures
        arithmetic_effect(heap@, *old(thread), *final(thread), instruction, operation, res),
{
    let n = thread.stack.len();
    if n < 2 {
        return Err(PengError::StackUnderflow.push(PengError::InvalidInstruction(instruction)));
    }
    let left = match resolve_numeric_cell(heap, *thread.stack[n - 2].value()) {
        Ok(Some(c)) => c,
        Ok(None) => return Ok(PengStackStep::NotHandled),
        Err(e) => return Err(e.push(PengError::InvalidInstruction(instruction))),
    };
    let right = match resolve_numeric_cell(heap, *thread.stack[n - 1].value()) {
        Ok(Some(c)) => c,
        Ok(None) => return Ok(PengStackStep::NotHandled),
        Err(e) => return Err(e.push(PengError::InvalidInstruction(instruction))),
    };
    match binary_numeric_cells(&left, &right, operation) {
        PengNumericResult::Value(c) => {
            let _ = thread.stack.pop();
            let _ = thread.stack.pop();
            thread.stack.push(PengBinded::Mutable(c));
            proof {
                assert(thread.stack@ =~= old(thread).stack@.take(n - 2).push(PengBinded::Mutable(c)));
            }
            Ok(PengStackStep::Done)
        },
        PengNumericResult::Undefined => Err(PengError::InvalidInstruction(instruction)),
        PengNumericResult::NeedsFloat => Ok(PengStackStep::NotHandled),
    }
}

fn execute_logic_operation(thread: &mut PengCallStack, instruction: PengInstruction) -> (res: Result<
    PengStackStep,
    PengError,
>)
    requires
        instruction is Not || instruction is Negate || instruction is And || instruction is Or,
    ensures
        logic_effect(*old(thread), *final(thread), instruction, res),
{
    let n = thread.stack.len();
    match instruction {
        PengInstruction::Not | PengInstruction::Negate => {
            if n == 0 {
                return Err(PengError::StackUnderflow.push(PengError::InvalidInstruction(instruction)));
            }
            let value = match (instruction, *thread.stack[n - 1].value()) {
                (PengInstruction::Not, PengCell::Bool(b)) => PengCell::Bool(!b),
                (PengInstruction::Negate, PengCell::Int(v)) => {
                    if v == isize::MIN {
                        return Err(PengError::InvalidInstruction(instruction));
                    }
                    PengCell::Int(-v)
                },
                (PengInstruction::Negate, PengCell::Float32(b)) => PengCell::Float32(b ^ 0x8000_0000u32),
                (PengInstruction::Negate, PengCell::Float64(b)) => PengCell::Float64(b ^ 0x8000_0000_0000_0000u64),
                _ => return Ok(PengStackStep::NotHandled),
            };
            let _ = thread.stack.pop();
            thread.stack.push(PengBinded::Mutable(value));
            Ok(PengStackStep::Done)
        },
        _ => {
            if n < 2 {
                return Err(PengError::StackUnderflow.push(PengError::InvalidInstruction(instruction)));
            }
            let value = match (*thread.stack[n - 2].value(), *thread.stack[n - 1].value()) {
                (PengCell::Bool(a), PengCell::Bool(b)) => match instruction {
                    PengInstruction::And => a && b,
                    _ => a || b,
                },
                _ => return Ok(PengStackStep::NotHandled),
            };
            let _ = thread.stack.pop();
            let _ = thread.stack.pop();
            thread.stack.push(PengBinded::Mutable(PengCell::Bool(value)));
            proof {
                assert(thread.stack@ =~= old(thread).stack@.take(n - 2).push(PengBinded::Mutable(PengCell::Bool(value))));
            }
            Ok(PengStackStep::Done)
        },
    }
}

fn compared_cell_of(heap: &PengHeap, cell: PengCell) -> (res: Result<Option<PengCell>, PengError>)
    ensures
        res == compared_cell(heap@, cell),
{
    match cell {
        PengCell::Reference(ptr) => match heap.get_heap(ptr) {
            Some(PengHeapValue::Cell(value)) => Ok(Some(*value)),
            Some(_) => Ok(None),
            None => Err(PengError::HeapValueNotFound(ptr)),
        },
        _ => Ok(Some(cell)),
    }
}

fn execute_comparison(heap: &PengHeap, thread: &mut PengCallStack, instruction: PengInstruction) -> (res: Result<
    PengStackStep,
    PengError,
>)
    requires
        instruction is Equals || instruction is NotEquals || instruction is GreaterThan || instruction is GreaterEqualsThan
            || instruction is LessThan || instruction is LessEqualsThan,
    ensures
        comparison_effect(heap@, *old(thread), *final(thread), instruction, res),
{
    let n = thread.stack.len();
    if n < 2 {
        return Err(PengError::StackUnderflow.push(PengError::InvalidInstruction(instruction)));
    }
    let left = compared_cell_of(heap, *thread.stack[n - 2].value());
    let right = compared_cell_of(heap, *thread.stack[n - 1].value());
    let (l, r) = match (left, right) {
        (Err(e), _) => return Err(e.push(PengError::InvalidInstruction(instruction))),
        (Ok(_), Err(e)) => return Err(e.push(PengError::InvalidInstruction(instruction))),
        (Ok(Some(l)), Ok(Some(r))) => (l, r),
        _ => return Ok(PengStackStep::NotHandled),
    };
    let floats = match (l, r) {
        (PengCell::Float32(_), _) | (PengCell::Float64(_), _) | (_, PengCell::Float32(_)) | (_, PengCell::Float64(_)) => true,
        _ => false,
    };
    let references = match (l, r) {
        (PengCell::Reference(_), _) | (_, PengCell::Reference(_)) => true,
        _ => false,
    };
    if references {
        return Ok(PengStackStep::NotHandled);
    }
    if floats {
        match (l, r) {
            (PengCell::Float32(_), PengCell::Nil) | (PengCell::Float32(_), PengCell::Bool(_))
            | (PengCell::Float64(_), PengCell::Nil) | (PengCell::Float64(_), PengCell::Bool(_))
            | (PengCell::Nil, PengCell::Float32(_)) | (PengCell::Bool(_), PengCell::Float32(_))
            | (PengCell::Nil, PengCell::Float64(_)) | (PengCell::Bool(_), PengCell::Float64(_)) => {},
            _ => return Ok(PengStackStep::NotHandled),
        }
    }
    let b = match instruction {
        PengInstruction::Equals => l.equals(&r),
        PengInstruction::NotEquals => !l.equals(&r),
        _ => {
            let c = match instruction {
                PengInstruction::GreaterThan => l.greater_than(&r),
                PengInstruction::GreaterEqualsThan => l.greater_equals_than(&r),
                PengInstruction::LessThan => l.less_than(&r),
                _ => l.less_equals_than(&r),
            };
            match c {
                Ok(b) => b,
                Err(_) => return Ok(PengStackStep::NotHandled),
            }
        },
    };
    let _ = thread.stack.pop();
    let _ = thread.stack.pop();
    thread.stack.push(PengBinded::Mutable(PengCell::Bool(b)));
    proof {
        assert(thread.stack@ =~= old(thread).stack@.take(n - 2).push(PengBinded::Mutable(PengCell::Bool(b))));
    }
    Ok(PengStackStep::Done)
}

/// Runs one instruction of the current frame of `thread` against the heap, with
/// `constant` the constant a `PushConst` pushes and `names` the pooled names: the heap
/// instructions (pushing a constant, a pooled string, a value or a reference, storing through a reference, creating
/// empty objects, modules and vectors), calls, arithmetic and logic on numbers and
/// booleans, reading and writing attributes and members, reading and writing items by index, joining
/// strings, and the stack, local, jump and return instructions. Other instructions, and operations on other
/// values or on floating-point numbers, come back as `NotHandled`, with nothing changed.
pub fn execute_instruction(
    heap: &mut PengHeap,
    thread: &mut PengCallStack,
    instruction: PengInstruction,
    frame_base: usize,
    constant: Option<PengCell>,
    names: &PengNamePool,
) -> (res: Result<PengStackStep, PengError>)
    requires
        old(heap).next_ptr() < usize::MAX,
        no_max_variadic(old(heap)@),
        instruction != PengInstruction::FunctionCall(usize::MAX),
        instruction != PengInstruction::TryFunctionCall(usize::MAX),
    ensures
        functions_kept(old(heap)@, final(heap)@),
        final(heap).next_ptr() <= old(heap).next_ptr() + 1,
        final(heap).next_ptr() == crate::heap::next_after(old(heap)@, final(heap)@, old(heap).next_ptr()),
        instruction_effect(
            old(heap)@,
            old(heap).next_ptr(),
            *old(thread),
            final(heap)@,
            *final(thread),
            instruction,
            frame_base,
            constant,
            names@,
            res,
        ),
{
    match instruction {
        PengInstruction::PushString(name) => {
            let text = match names.get_pooled_name(name) {
                Some(text) => text.clone(),
                None => return Err(PengError::NameNotFound(name)),
            };
            let ptr = heap.create_heap_value(PengHeapValue::String(text));
            thread.stack.push(PengBinded::Mutable(PengCell::Reference(ptr)));
            Ok(PengStackStep::Done)
        },
        PengInstruction::PushConst(_) => match constant {
            Some(c) => {
                thread.stack.push(PengBinded::Mutable(c));
                Ok(PengStackStep::Done)
            },
            None => Err(PengError::InstructionExpectedConstant),
        },
        PengInstruction::PushHeap(ptr) => {
            let cell = match heap.get_heap(ptr) {
                Some(PengHeapValue::Cell(c)) => *c,
                Some(_) => PengCell::Reference(ptr),
                None => return Err(PengError::HeapValueNotFound(ptr)),
            };
            thread.stack.push(PengBinded::Mutable(cell));
            Ok(PengStackStep::Done)
        },
        PengInstruction::PushHeapRef(ptr) => {
            thread.stack.push(PengBinded::Mutable(PengCell::Reference(ptr)));
            Ok(PengStackStep::Done)
        },
        PengInstruction::StoreHeap => {
            let n = thread.stack.len();
            if n < 2 {
                return Err(PengError::StackUnderflow.push(PengError::InvalidInstruction(instruction)));
            }
            let value_cell = *thread.stack[n - 1].value();
            let ptr = match thread.stack[n - 2].value() {
                PengCell::Reference(ptr) => *ptr,
                _ => return Err(PengError::ExpectedReference),
            };
            let value = match heap.get_value_from_cell(value_cell) {
                Ok(value) => value,
                Err(e) => return Err(e.push(PengError::InvalidInstruction(instruction))),
            };
            let _ = thread.stack.pop();
            let _ = thread.stack.pop();
            proof {
                assert(thread.stack@ =~= old(thread).stack@.take(n - 2));
            }
            match heap.assign_heap(ptr, value) {
                Ok(()) => Ok(PengStackStep::Done),
                Err(e) => Err(e.push(PengError::InvalidInstruction(instruction))),
            }
        },
        PengInstruction::CreateEmptyObject => {
            let ptr = heap.create_heap_value(PengHeapValue::Object(Vec::new()));
            thread.stack.push(PengBinded::Mutable(PengCell::Reference(ptr)));
            Ok(PengStackStep::Done)
        },
        PengInstruction::CreateEmptyModule => {
            let ptr = heap.create_heap_value(PengHeapValue::Module(Vec::new()));
            thread.stack.push(PengBinded::Mutable(PengCell::Reference(ptr)));
            Ok(PengStackStep::Done)
        },
        PengInstruction::CreateVector(size) => {
            let n = thread.stack.len();
            if n < size {
                return Err(PengError::StackUnderflow.push(PengError::InvalidInstruction(instruction)));
            }
            let ghost s0 = thread.stack@;
            let mut cells: Vec<PengBinded<PengCell>> = Vec::new();
            let mut i: usize = n - size;
            while i < n
                invariant
                    size <= n,
                    n - size <= i <= n,
                    n == s0.len(),
                    thread.stack@ == s0,
                    cells@ == s0.subrange(n - size, i as int),
                decreases n - i,
            {
                cells.push(copy_cell(&thread.stack[i]));
                assert(cells@ =~= s0.subrange(n - size, i + 1));
                i = i + 1;
            }
            assert(cells@ =~= s0.skip(n - size));
            thread.stack.truncate(n - size);
            let ptr = heap.create_heap_value(PengHeapValue::Vector(cells));
            thread.stack.push(PengBinded::Mutable(PengCell::Reference(ptr)));
            Ok(PengStackStep::Done)
        },
        PengInstruction::FunctionCall(args_count) | PengInstruction::TryFunctionCall(args_count) => {
            let is_try = match instruction {
                PengInstruction::TryFunctionCall(_) => true,
                _ => false,
            };
            match call_function(heap, thread, args_count, is_try) {
                Ok(()) => Ok(PengStackStep::Done),
                Err(e) => {
                    let res = Err(e.push(PengError::InvalidInstruction(instruction)));
                    proof {
                        assert(failed_in(res, e, instruction));
                    }
                    res
                },
            }
        },
        PengInstruction::Add => execute_binary_numeric_operation(heap, thread, instruction, PengNumericOperation::Add),
        PengInstruction::Subtract => execute_binary_numeric_operation(
            heap,
            thread,
            instruction,
            PengNumericOperation::Subtract,
        ),
        PengInstruction::Multiply => execute_binary_numeric_operation(
            heap,
            thread,
            instruction,
            PengNumericOperation::Multiply,
        ),
        PengInstruction::Divide => execute_binary_numeric_operation(heap, thread, instruction, PengNumericOperation::Divide),
        PengInstruction::Power => execute_binary_numeric_operation(heap, thread, instruction, PengNumericOperation::Power),
        PengInstruction::Remainder => execute_binary_numeric_operation(
            heap,
            thread,
            instruction,
            PengNumericOperation::Remainder,
        ),
        PengInstruction::Not | PengInstruction::Negate | PengInstruction::And | PengInstruction::Or => {
            execute_logic_operation(thread, instruction)
        },
        PengInstruction::MakeImmutable | PengInstruction::GetConstAttribute(_) | PengInstruction::SetConstAttribute(_)
        | PengInstruction::GetConstMember(_) | PengInstruction::SetConstMember(_) | PengInstruction::Concat => {
            execute_access_instruction(heap, thread, instruction)
        },
        PengInstruction::GetIndex => execute_get_index(heap, thread),
        PengInstruction::SetIndex => execute_set_index(heap, thread),
        PengInstruction::Equals | PengInstruction::NotEquals | PengInstruction::GreaterThan
        | PengInstruction::GreaterEqualsThan | PengInstruction::LessThan | PengInstruction::LessEqualsThan => {
            execute_comparison(heap, thread, instruction)
        },
        _ => execute_stack_instruction(instruction, frame_base, thread),
    }
}

/// Where the innermost frame below `n` that catches errors stands.
pub open spec fn last_try(fs: Seq<PengFrame>, n: int) -> Option<int>
    decreases n,
{
    if n <= 0 {
        None
    } else if fs[n - 1].is_try {
        Some(n - 1)
    } else {
        last_try(fs, n - 1)
    }
}

/// The stack cut down to `base` values (all of it when it is shorter).
pub open spec fn cut(s: Seq<PengBinded<PengCell>>, base: usize) -> Seq<PengBinded<PengCell>> {
    if base <= s.len() {
        s.take(base as int)
    } else {
        s
    }
}

/// Recovering from an error: the frames down to the innermost one that catches errors
/// are left, its values are dropped, and nil and `false` are pushed; with no such frame
/// every frame is left and nothing else changes.
pub open spec fn recovered(t0: PengCallStack, t1: PengCallStack, res: bool) -> bool {
    match last_try(t0.frames@, t0.frames@.len() as int) {
        Some(i) => res && t1.frames@ == t0.frames@.take(i) && t1.stack@ == cut(t0.stack@, t0.frames@[i].base).push(
            PengBinded::Mutable(PengCell::Nil),
        ).push(PengBinded::Mutable(PengCell::Bool(false))),
        None => !res && t1.frames@ == Seq::<PengFrame>::empty() && t1.stack@ == t0.stack@,
    }
}

/// Leaves frames until one that catches errors, and leaves nil and `false` on the stack
/// for it; says whether there was one.
pub fn recover_thread_try_error(thread: &mut PengCallStack) -> (res: bool)
    ensures
        recovered(*old(thread), *final(thread), res),
{
    let ghost fs = thread.frames@;
    loop
        invariant
            thread.stack@ == old(thread).stack@,
            fs == old(thread).frames@,
            thread.frames@ == fs.take(thread.frames@.len() as int),
            thread.frames@.len() <= fs.len(),
            last_try(fs, fs.len() as int) == last_try(fs, thread.frames@.len() as int),
        decreases thread.frames@.len(),
    {
        let n = thread.frames.len();
        if n == 0 {
            assert(thread.frames@ =~= Seq::<PengFrame>::empty());
            return false;
        }
        let frame = thread.frames.pop().unwrap();
        proof {
            assert(fs.take(n as int)[n - 1] == fs[n - 1]);
            assert(frame == fs[n - 1]);
            assert(thread.frames@ =~= fs.take(n - 1));
            assert(last_try(fs, n as int) == if fs[n - 1].is_try {
                Some(n - 1)
            } else {
                last_try(fs, n - 1)
            });
        }
        if frame.is_try {
            thread.stack.truncate(frame.base);
            thread.stack.push(PengBinded::Mutable(PengCell::Nil));
            thread.stack.push(PengBinded::Mutable(PengCell::Bool(false)));
            proof {
                assert(fs[n - 1].base == frame.base);
            }
            return true;
        }
    }
}

/// Leaving a frame that returned `ret`: its values are dropped; the value goes to the
/// frame below (with `true` after it when the call caught errors), or is the thread's
/// result when no frame is left.
pub open spec fn returned(t0: PengCallStack, t1: PengCallStack, ret: PengBinded<PengCell>, res: Option<
    PengBinded<PengCell>,
>) -> bool {
    let f = t0.frames@.last();
    let s = cut(t0.stack@, f.base);
    &&& t1.frames@ == t0.frames@.drop_last()
    &&& t1.frames@.len() == 0 ==> res == Some(ret) && t1.stack@ == s
    &&& t1.frames@.len() > 0 ==> res is None && t1.stack@ == (if f.is_try {
        s.push(ret).push(PengBinded::Mutable(PengCell::Bool(true)))
    } else {
        s.push(ret)
    })
}

fn return_from_frame(thread: &mut PengCallStack, ret: PengBinded<PengCell>) -> (res: Option<PengBinded<PengCell>>)
    requires
        old(thread).frames@.len() > 0,
    ensures
        returned(*old(thread), *final(thread), ret, res),
{
    let frame = thread.frames.pop().unwrap();
    thread.stack.truncate(frame.base);
    if thread.frames.len() == 0 {
        return Some(ret);
    }
    thread.stack.push(ret);
    if frame.is_try {
        thread.stack.push(PengBinded::Mutable(PengCell::Bool(true)));
    }
    None
}

/// How a step of a thread ended: it goes on, it finished with a value, its current frame
/// is a native function for the runtime to call, or its next instruction is one the
/// library does not run.
pub enum PengThreadStep {
    Continued,
    Finished(PengBinded<PengCell>),
    NativeCall,
    NotHandled(PengInstruction),
}

/// What follows the instruction's result `r` (on the heap `hi` and thread `ti`), giving
/// `h1`, `t1` and `res`.
pub open spec fn after_instruction(
    hi: Map<usize, PengHeapValueV>,
    ti: PengCallStack,
    r: Result<PengStackStep, PengError>,
    h1: Map<usize, PengHeapValueV>,
    t1: PengCallStack,
    instruction: PengInstruction,
    position: PengPosition,
    res: Result<PengThreadStep, PengError>,
) -> bool {
    &&& h1 == hi
    &&& match r {
        Ok(PengStackStep::Done) => res matches Ok(PengThreadStep::Continued) && t1 == ti,
        Ok(PengStackStep::NotHandled) => res == Ok::<PengThreadStep, PengError>(PengThreadStep::NotHandled(instruction))
            && t1 == ti,
        Ok(PengStackStep::Returned(ret)) => ti.frames@.len() > 0 && exists|o: Option<PengBinded<PengCell>>|
            #[trigger] returned(ti, t1, ret, o) && match o {
                Some(v) => res == Ok::<PengThreadStep, PengError>(PengThreadStep::Finished(v)),
                None => res matches Ok(PengThreadStep::Continued),
            },
        Err(e) => exists|found: bool|
            #[trigger] recovered(ti, t1, found) && if found {
                res matches Ok(PengThreadStep::Continued)
            } else {
                res == Err::<PengThreadStep, PengError>(PengError::PositionedError { error: Box::new(e), position })
            },
    }
}

/// The constant an instruction pushes, out of the constants of its function.
pub open spec fn constant_of(i: PengInstruction, consts: Seq<PengCell>) -> Option<PengCell> {
    match i {
        PengInstruction::PushConst(k) => if k < consts.len() {
            Some(consts[k as int])
        } else {
            None
        },
        _ => None,
    }
}

/// One step of the thread's current frame: the instruction at its program counter is
/// run after the counter moves past it; a return leaves the frame, and an error is caught
/// by the innermost frame that catches errors, or comes back with the instruction's place.
pub open spec fn thread_step(
    h0: Map<usize, PengHeapValueV>,
    next: int,
    names: Seq<Seq<char>>,
    t0: PengCallStack,
    h1: Map<usize, PengHeapValueV>,
    t1: PengCallStack,
    res: Result<PengThreadStep, PengError>,
) -> bool {
    if t0.frames@.len() == 0 {
        res matches Ok(PengThreadStep::Continued) && t1 == t0 && h1 == h0
    } else {
        let f = t0.frames@.last();
        let pc = f.program_counter;
        if !h0.contains_key(f.procedure.0) {
            res == Err::<PengThreadStep, PengError>(PengError::HeapValueNotFound(f.procedure)) && t1 == t0 && h1 == h0
        } else {
            match h0[f.procedure.0] {
                PengHeapValueV::Function(PengFunctionKind::Native, _, _, _) => res matches Ok(PengThreadStep::NativeCall)
                    && t1 == t0 && h1 == h0,
                PengHeapValueV::Function(PengFunctionKind::Bytecode(_), code, positions, consts) => if pc >= code.len()
                    || pc >= positions.len() {
                    res matches Ok(PengThreadStep::Continued) && t1 == t0 && h1 == h0
                } else if code[pc as int] is PushConst && code[pc as int]->PushConst_0 >= consts.len() {
                    res == Err::<PengThreadStep, PengError>(
                        PengError::IndexOutOfBounds { index: code[pc as int]->PushConst_0, len: consts.len() as usize },
                    ) && t1 == t0 && h1 == h0
                } else {
                    exists|ta: PengCallStack, hi: Map<usize, PengHeapValueV>, ti: PengCallStack, r: Result<
                        PengStackStep,
                        PengError,
                    >|
                        #[trigger] instruction_effect(h0, next, ta, hi, ti, code[pc as int], f.base, constant_of(code[pc as int], consts), names, r) && ta.stack@
                            == t0.stack@ && jumped(t0.frames@, ta.frames@, (pc + 1) as usize) && after_instruction(
                            hi,
                            ti,
                            r,
                            h1,
                            t1,
                            code[pc as int],
                            positions[pc as int],
                            res,
                        )
                },
                _ => res matches Err(PengError::ExpectedFunction) && t1 == t0 && h1 == h0,
            }
        }
    }
}

/// Runs one step of `thread` (see `thread_step`).
pub fn step_thread(heap: &mut PengHeap, thread: &mut PengCallStack, names: &PengNamePool) -> (res: Result<
    PengThreadStep,
    PengError,
>)
    requires
        old(heap).next_ptr() < usize::MAX,
        runnable_heap(old(heap)@),
    ensures
        runnable_heap(final(heap)@),
        final(heap).next_ptr() <= old(heap).next_ptr() + 1,
        final(heap).next_ptr() == crate::heap::next_after(old(heap)@, final(heap)@, old(heap).next_ptr()),
        thread_step(old(heap)@, old(heap).next_ptr(), names@, *old(thread), final(heap)@, *final(thread), res),
{
    let n = thread.frames.len();
    if n == 0 {
        return Ok(PengThreadStep::Continued);
    }
    let pc = thread.frames[n - 1].program_counter;
    let base = thread.frames[n - 1].base;
    let procedure = thread.frames[n - 1].procedure;
    let (instruction, position, constant) = match heap.get_heap(procedure) {
        Some(PengHeapValue::Function(PengFunctionKind::Native, _, _, _)) => return Ok(PengThreadStep::NativeCall),
        Some(PengHeapValue::Function(PengFunctionKind::Bytecode(_), code, positions, consts)) => {
            if pc >= code.len() || pc >= positions.len() {
                return Ok(PengThreadStep::Continued);
            }
            let constant = match code[pc] {
                PengInstruction::PushConst(index) => {
                    if index >= consts.len() {
                        return Err(PengError::IndexOutOfBounds { index, len: consts.len() });
                    }
                    Some(consts[index])
                },
                _ => None,
            };
            (code[pc], positions[pc], constant)
        },
        Some(_) => return Err(PengError::ExpectedFunction),
        None => return Err(PengError::HeapValueNotFound(procedure)),
    };
    let ghost h0 = heap@;
    let ghost code = h0[procedure.0]->Function_1;
    proof {
        assert(code.contains(instruction)) by {
            assert(code[pc as int] == instruction);
        }
    }
    set_counter(thread, pc + 1);
    let ghost ta = *thread;
    let r = execute_instruction(heap, thread, instruction, base, constant, names);
    let ghost hi = heap@;
    let ghost ti = *thread;
    let res = match r {
        Ok(PengStackStep::Done) => Ok(PengThreadStep::Continued),
        Ok(PengStackStep::NotHandled) => Ok(PengThreadStep::NotHandled(instruction)),
        Ok(PengStackStep::Returned(ret)) => {
            let o = return_from_frame(thread, ret);
            proof {
                assert(returned(ti, *thread, ret, o));
            }
            match o {
                Some(v) => Ok(PengThreadStep::Finished(v)),
                None => Ok(PengThreadStep::Continued),
            }
        },
        Err(e) => {
            let found = recover_thread_try_error(thread);
            proof {
                assert(recovered(ti, *thread, found));
            }
            if found {
                Ok(PengThreadStep::Continued)
            } else {
                Err(PengError::PositionedError { error: Box::new(e), position })
            }
        },
    };
    proof {
        assert(instruction_effect(h0, old(heap).next_ptr(), ta, hi, ti, instruction, base, constant, names@, r));
        assert(after_instruction(hi, ti, r, heap@, *thread, instruction, position, res));
    }
    res
}

/// Whether the relation a comparison instruction names holds between `a` and `b`.
pub open spec fn relation_holds(instruction: PengInstruction, a: int, b: int) -> bool {
    match instruction {
        PengInstruction::Equals => a == b,
        PengInstruction::NotEquals => a != b,
        PengInstruction::GreaterThan => a > b,
        PengInstruction::GreaterEqualsThan => a >= b,
        PengInstruction::LessThan => a < b,
        _ => a <= b,
    }
}

/// A comparison instruction on two integer cells (signed, unsigned or bytes, in any mix)
/// on top of the stack replaces them by whether its relation holds between their values:
/// `>=` gives `true` on equal values, `>` gives `false`, and so on.
pub proof fn lemma_integer_comparison(
    h: Map<usize, PengHeapValueV>,
    t0: PengCallStack,
    t1: PengCallStack,
    instruction: PengInstruction,
    res: Result<PengStackStep, PengError>,
)
    requires
        instruction is Equals || instruction is NotEquals || instruction is GreaterThan || instruction is GreaterEqualsThan
            || instruction is LessThan || instruction is LessEqualsThan,
        t0.stack@.len() >= 2,
        crate::cell::integer_of(t0.stack@[t0.stack@.len() - 2].bound()) is Some,
        crate::cell::integer_of(t0.stack@.last().bound()) is Some,
        comparison_effect(h, t0, t1, instruction, res),
    ensures
        res matches Ok(PengStackStep::Done),
        t1.frames@ == t0.frames@,
        t1.stack@ == t0.stack@.take(t0.stack@.len() - 2).push(
            PengBinded::Mutable(
                PengCell::Bool(
                    relation_holds(
                        instruction,
                        crate::cell::integer_of(t0.stack@[t0.stack@.len() - 2].bound())->0,
                        crate::cell::integer_of(t0.stack@.last().bound())->0,
                    ),
                ),
            ),
        ),
{
    let s = t0.stack@;
    assert(s.last() == s[s.len() - 1]);
}

/// Adding, subtracting or multiplying two signed integer cells on top of the stack
/// replaces them by the exact sum, difference or product, and fails when that does not
/// fit a signed integer.
pub proof fn lemma_int_arithmetic(
    h: Map<usize, PengHeapValueV>,
    t0: PengCallStack,
    t1: PengCallStack,
    instruction: PengInstruction,
    a: isize,
    b: isize,
    res: Result<PengStackStep, PengError>,
)
    requires
        instruction is Add || instruction is Subtract || instruction is Multiply,
        t0.stack@.len() >= 2,
        t0.stack@[t0.stack@.len() - 2].bound() == PengCell::Int(a),
        t0.stack@.last().bound() == PengCell::Int(b),
        arithmetic_effect(h, t0, t1, instruction, numeric_operation(instruction)->0, res),
    ensures
        ({
            let x: int = if instruction is Add {
                a + b
            } else if instruction is Subtract {
                a - b
            } else {
                a * b
            };
            if isize::MIN <= x <= isize::MAX {
                res matches Ok(PengStackStep::Done) && t1.frames@ == t0.frames@ && t1.stack@ == t0.stack@.take(
                    t0.stack@.len() - 2,
                ).push(PengBinded::Mutable(PengCell::Int(x as isize)))
            } else {
                res == Err::<PengStackStep, PengError>(PengError::InvalidInstruction(instruction)) && t1 == t0
            }
        }),
{
    let s = t0.stack@;
    assert(s.last() == s[s.len() - 1]);
    crate::numeric::lemma_integer_cells_add_subtract_multiply(a, b, 0, 0, 0, 0);
}

/// `!` on a boolean on top of the stack replaces it by its negation, and `-` on a signed
/// integer by its opposite (negating the smallest integer, whose opposite does not fit,
/// fails).
pub proof fn lemma_not_and_negate(
    t0: PengCallStack,
    t1: PengCallStack,
    instruction: PengInstruction,
    res: Result<PengStackStep, PengError>,
)
    requires
        instruction is Not || instruction is Negate,
        t0.stack@.len() >= 1,
        logic_effect(t0, t1, instruction, res),
    ensures
        instruction is Not ==> (t0.stack@.last().bound() matches PengCell::Bool(b) ==> res matches Ok(PengStackStep::Done)
            && t1.stack@ == t0.stack@.drop_last().push(PengBinded::Mutable(PengCell::Bool(!b)))),
        instruction is Negate ==> (t0.stack@.last().bound() matches PengCell::Int(v) ==> if v == isize::MIN {
            res is Err && t1 == t0
        } else {
            res matches Ok(PengStackStep::Done) && t1.stack@ == t0.stack@.drop_last().push(
                PengBinded::Mutable(PengCell::Int((-v) as isize)),
            ) && v + ((-v) as isize) == 0
        }),
{
}

/// `==` and `!=` on booleans compare their values, nil equals nil, and a boolean never
/// equals a number.
pub proof fn lemma_boolean_equality(x: bool, y: bool, v: isize)
    ensures
        comparison_of(PengInstruction::Equals, PengCell::Bool(x), PengCell::Bool(y)) == Some(x == y),
        comparison_of(PengInstruction::NotEquals, PengCell::Bool(x), PengCell::Bool(y)) == Some(x != y),
        comparison_of(PengInstruction::Equals, PengCell::Nil, PengCell::Nil) == Some(true),
        comparison_of(PengInstruction::Equals, PengCell::Bool(x), PengCell::Int(v)) == Some(false),
        comparison_of(PengInstruction::NotEquals, PengCell::Bool(x), PengCell::Int(v)) == Some(true),
{
}

} // verus!
