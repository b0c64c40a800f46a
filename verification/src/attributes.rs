use vstd::prelude::*;
use vstd::string::StringExecFns;
use vstd::string::StrSliceExecFns;
use crate::binding::PengBinded;
use crate::call::{copy_cell, PengCallStack, PengCell};
use crate::error::PengError;
use crate::heap::{copy_named_cells, PengHeap, PengHeapValue, PengHeapValueV};
use crate::instruction::PengInstruction;
use crate::runtime::{allocated, failed_in, PengStackStep};
use crate::utils::{PengHeapPtr, PengNamePoolPtr};

verus! {

/// Where the field `name` first stands among `fields`, looking from `i` on.
pub open spec fn first_field(fields: Seq<(PengNamePoolPtr, PengBinded<PengCell>)>, name: PengNamePoolPtr, i: int) -> Option<int>
    decreases fields.len() - i,
{
    if i < 0 || i >= fields.len() {
        None
    } else if fields[i].0 == name {
        Some(i)
    } else {
        first_field(fields, name, i + 1)
    }
}

/// Where the field `name` stands among `fields`.
pub open spec fn field_index(fields: Seq<(PengNamePoolPtr, PengBinded<PengCell>)>, name: PengNamePoolPtr) -> Option<int> {
    first_field(fields, name, 0)
}

/// The fields with `name` set to `value`: replaced where it stands, else added.
pub open spec fn with_field(
    fields: Seq<(PengNamePoolPtr, PengBinded<PengCell>)>,
    name: PengNamePoolPtr,
    value: PengBinded<PengCell>,
) -> Seq<(PengNamePoolPtr, PengBinded<PengCell>)> {
    match field_index(fields, name) {
        Some(i) => fields.update(i, (name, value)),
        None => fields.push((name, value)),
    }
}

/// A value read out of `base` is as mutable as `base` itself.
pub open spec fn inherited(base: PengBinded<PengCell>, value: PengBinded<PengCell>) -> PengBinded<PengCell> {
    match base {
        PengBinded::Mutable(_) => PengBinded::Mutable(value.bound()),
        PengBinded::Immutable(_) => PengBinded::Immutable(value.bound()),
    }
}

/// The value a stack cell stands for: what a reference points to, or the cell itself.
pub open spec fn cell_value(h: Map<usize, PengHeapValueV>, c: PengCell) -> Result<PengHeapValueV, PengError> {
    match c {
        PengCell::Reference(p) => if h.contains_key(p.0) {
            Ok(h[p.0])
        } else {
            Err(PengError::HeapValueNotFound(p))
        },
        _ => Ok(PengHeapValueV::Cell(c)),
    }
}

/// What marking the top value immutable, reading or writing a named attribute or member,
/// and joining two strings do to the heap `h0` (next address `next`) and the thread `t0`.
/// An attribute that an object or module does not hold, an attribute of another kind of
/// value, writing an attribute of a type, and joining values that are not two strings are
/// left to the rest of the runtime.
pub open spec fn access_effect(
    h0: Map<usize, PengHeapValueV>,
    next: int,
    t0: PengCallStack,
    h1: Map<usize, PengHeapValueV>,
    t1: PengCallStack,
    instruction: PengInstruction,
    res: Result<PengStackStep, PengError>,
) -> bool {
    let s = t0.stack@;
    let same = t1 == t0 && h1 == h0;
    let left = res matches Ok(PengStackStep::NotHandled) && same;
    match instruction {
        PengInstruction::MakeImmutable => if s.len() == 0 {
            failed_in(res, PengError::StackUnderflow, instruction) && same
        } else {
            res matches Ok(PengStackStep::Done) && h1 == h0 && t1.frames@ == t0.frames@ && t1.stack@
                == s.drop_last().push(PengBinded::Immutable(s.last().bound()))
        },
        PengInstruction::GetConstAttribute(name) | PengInstruction::GetConstMember(name) => {
            let member = instruction is GetConstMember;
            if s.len() == 0 {
                failed_in(res, PengError::StackUnderflow, instruction) && same
            } else {
                match s.last().bound() {
                    PengCell::Reference(p) => if !h0.contains_key(p.0) {
                        res == Err::<PengStackStep, PengError>(PengError::HeapValueNotFound(p)) && same
                    } else {
                        let fields = match h0[p.0] {
                            PengHeapValueV::Module(ms) => Some(ms),
                            PengHeapValueV::Object(fs) => if member {
                                None
                            } else {
                                Some(fs)
                            },
                            _ => None,
                        };
                        match fields {
                            Some(fs) => match field_index(fs, name) {
                                Some(k) => res matches Ok(PengStackStep::Done) && h1 == h0 && t1.frames@
                                    == t0.frames@ && t1.stack@ == s.drop_last().push(inherited(s.last(), fs[k].1)),
                                None => if member {
                                    res == Err::<PengStackStep, PengError>(PengError::AttributeNotFound(name)) && same
                                } else {
                                    left
                                },
                            },
                            None => if member {
                                res == Err::<PengStackStep, PengError>(PengError::ExpectedModule) && same
                            } else {
                                left
                            },
                        }
                    },
                    _ => res == Err::<PengStackStep, PengError>(PengError::ExpectedReference) && same,
                }
            }
        },
        PengInstruction::SetConstAttribute(name) | PengInstruction::SetConstMember(name) => {
            let member = instruction is SetConstMember;
            if s.len() < 2 {
                failed_in(res, PengError::StackUnderflow, instruction) && same
            } else if s[s.len() - 2] is Immutable {
                res == Err::<PengStackStep, PengError>(PengError::CannotMutateImmutable) && same
            } else {
                let done = |v: PengHeapValueV, p: usize| res matches Ok(PengStackStep::Done) && h1 == h0.insert(p, v)
                    && t1.frames@ == t0.frames@ && t1.stack@ == s.take(s.len() - 2);
                match s[s.len() - 2].bound() {
                    PengCell::Reference(p) => if !h0.contains_key(p.0) {
                        res == Err::<PengStackStep, PengError>(PengError::HeapValueNotFound(p)) && same
                    } else {
                        match h0[p.0] {
                            PengHeapValueV::Module(ms) => if member {
                                done(PengHeapValueV::Module(with_field(ms, name, s.last())), p.0)
                            } else {
                                res == Err::<PengStackStep, PengError>(PengError::ExpectedObject) && same
                            },
                            PengHeapValueV::Object(fs) => if member {
                                res == Err::<PengStackStep, PengError>(PengError::ExpectedModule) && same
                            } else if field_index(fs, name) matches Some(k) && fs[k].1 is Immutable {
                                res == Err::<PengStackStep, PengError>(PengError::CannotMutateImmutable) && same
                            } else {
                                done(PengHeapValueV::Object(with_field(fs, name, s.last())), p.0)
                            },
                            PengHeapValueV::Type => if member {
                                res == Err::<PengStackStep, PengError>(PengError::ExpectedModule) && same
                            } else {
                                left
                            },
                            _ => if member {
                                res == Err::<PengStackStep, PengError>(PengError::ExpectedModule) && same
                            } else {
                                res == Err::<PengStackStep, PengError>(PengError::ExpectedObject) && same
                            },
                        }
                    },
                    _ => res == Err::<PengStackStep, PengError>(PengError::ExpectedReference) && same,
                }
            }
        },
        PengInstruction::Concat => if s.len() < 2 {
            failed_in(res, PengError::StackUnderflow, instruction) && same
        } else {
            match (cell_value(h0, s[s.len() - 2].bound()), cell_value(h0, s[s.len() - 1].bound())) {
                (Err(e), _) => failed_in(res, e, instruction) && same,
                (Ok(_), Err(e)) => failed_in(res, e, instruction) && same,
                (Ok(PengHeapValueV::String(a)), Ok(PengHeapValueV::String(b))) => res matches Ok(PengStackStep::Done)
                    && t1.frames@ == t0.frames@ && allocated(
                    h0,
                    h1,
                    next,
                    PengHeapValueV::String(a + b),
                    t1.stack@,
                    s.take(s.len() - 2),
                ),
                _ => left,
            }
        },
        _ => left,
    }
}

proof fn lemma_first_field(fields: Seq<(PengNamePoolPtr, PengBinded<PengCell>)>, name: PengNamePoolPtr, i: int)
    ensures
        first_field(fields, name, i) matches Some(k) ==> i <= k < fields.len() && fields[k].0 == name,
    decreases fields.len() - i,
{
    if 0 <= i < fields.len() && fields[i].0 != name {
        lemma_first_field(fields, name, i + 1);
    }
}

/// What reading an item by a number index does: an item of a vector, or a new string
/// of one character of a string; an index of the wrong kind, an index out of bounds and a
/// value that cannot be indexed fail. A string key, which names an attribute, and a
/// reference that leads to another reference, are left to the rest of the runtime.
pub open spec fn index_effect(
    h0: Map<usize, PengHeapValueV>,
    next: int,
    t0: PengCallStack,
    h1: Map<usize, PengHeapValueV>,
    t1: PengCallStack,
    res: Result<PengStackStep, PengError>,
) -> bool {
    let instruction = PengInstruction::GetIndex;
    let s = t0.stack@;
    let same = t1 == t0 && h1 == h0;
    let left = res matches Ok(PengStackStep::NotHandled) && same;
    let wrong_kind = |iv: PengHeapValueV| res matches Err(PengError::InvalidIndexTypeValue(x)) && x@ == iv && same;
    let not_indexable = res matches Err(PengError::CannotIndexValue(m)) && m@ == "non-indexable value"@ && same;
    if s.len() < 2 {
        failed_in(res, PengError::StackUnderflow, instruction) && same
    } else {
        let base = s[s.len() - 2];
        match cell_value(h0, s[s.len() - 1].bound()) {
            Err(e) => failed_in(res, e, instruction) && same,
            Ok(iv) => if iv is String {
                left
            } else if iv matches PengHeapValueV::Cell(PengCell::Int(v)) && v < 0 {
                wrong_kind(iv)
            } else {
                let num: Option<int> = match iv {
                    PengHeapValueV::Cell(PengCell::Int(v)) => Some(v as int),
                    PengHeapValueV::Cell(PengCell::Uint(v)) => Some(v as int),
                    _ => None,
                };
                match base.bound() {
                    PengCell::Reference(p) => if !h0.contains_key(p.0) {
                        res == Err::<PengStackStep, PengError>(PengError::HeapValueNotFound(p)) && same
                    } else {
                        match h0[p.0] {
                            PengHeapValueV::Vector(items) => match num {
                                None => wrong_kind(iv),
                                Some(i) => if i < items.len() {
                                    res matches Ok(PengStackStep::Done) && h1 == h0 && t1.frames@ == t0.frames@
                                        && t1.stack@ == s.take(s.len() - 2).push(inherited(base, items[i]))
                                } else {
                                    res == Err::<PengStackStep, PengError>(
                                        PengError::IndexOutOfBounds { index: i as usize, len: items.len() as usize },
                                    ) && same
                                },
                            },
                            PengHeapValueV::String(text) => match num {
                                None => wrong_kind(iv),
                                Some(i) => if i < text.len() {
                                    res matches Ok(PengStackStep::Done) && t1.frames@ == t0.frames@
                                        && !h0.contains_key(next as usize) && h1 == h0.insert(
                                        next as usize,
                                        PengHeapValueV::String(seq![text[i]]),
                                    ) && t1.stack@ == s.take(s.len() - 2).push(
                                        inherited(base, PengBinded::Mutable(PengCell::Reference(PengHeapPtr(next as usize)))),
                                    )
                                } else {
                                    res == Err::<PengStackStep, PengError>(
                                        PengError::IndexOutOfBounds { index: i as usize, len: text.len() as usize },
                                    ) && same
                                },
                            },
                            PengHeapValueV::Object(_) | PengHeapValueV::Module(_) => wrong_kind(iv),
                            PengHeapValueV::Type => left,
                            PengHeapValueV::Cell(PengCell::Reference(_)) => left,
                            _ => not_indexable,
                        }
                    },
                    _ => not_indexable,
                }
            },
        }
    }
}

/// What writing an item by a number index does: an item of a vector is replaced by the
/// value on top. An index of the wrong kind, an index out of bounds, an immutable base and
/// a value that cannot be indexed fail. A string key, which names an attribute, writing
/// into a string, and a reference that leads to another reference are left to the rest of
/// the runtime.
pub open spec fn set_index_effect(
    h0: Map<usize, PengHeapValueV>,
    t0: PengCallStack,
    h1: Map<usize, PengHeapValueV>,
    t1: PengCallStack,
    res: Result<PengStackStep, PengError>,
) -> bool {
    let instruction = PengInstruction::SetIndex;
    let s = t0.stack@;
    let same = t1 == t0 && h1 == h0;
    let left = res matches Ok(PengStackStep::NotHandled) && same;
    let wrong_kind = |iv: PengHeapValueV| res matches Err(PengError::InvalidIndexTypeValue(x)) && x@ == iv && same;
    if s.len() < 3 {
        failed_in(res, PengError::StackUnderflow, instruction) && same
    } else if s[s.len() - 3] is Immutable {
        res == Err::<PengStackStep, PengError>(PengError::CannotMutateImmutable) && same
    } else {
        match cell_value(h0, s[s.len() - 2].bound()) {
            Err(e) => failed_in(res, e, instruction) && same,
            Ok(iv) => match s[s.len() - 3].bound() {
                PengCell::Reference(p) => if !h0.contains_key(p.0) {
                    res == Err::<PengStackStep, PengError>(PengError::HeapValueNotFound(p)) && same
                } else if h0[p.0] is String || h0[p.0] matches PengHeapValueV::Cell(PengCell::Reference(_)) || iv is String {
                    left
                } else if iv matches PengHeapValueV::Cell(PengCell::Int(v)) && v < 0 {
                    wrong_kind(iv)
                } else {
                    let num: Option<int> = match iv {
                        PengHeapValueV::Cell(PengCell::Int(v)) => Some(v as int),
                        PengHeapValueV::Cell(PengCell::Uint(v)) => Some(v as int),
                        _ => None,
                    };
                    match h0[p.0] {
                        PengHeapValueV::Vector(items) => match num {
                            None => wrong_kind(iv),
                            Some(i) => if i < items.len() {
                                res matches Ok(PengStackStep::Done) && h1 == h0.insert(
                                    p.0,
                                    PengHeapValueV::Vector(items.update(i, s.last())),
                                ) && t1.frames@ == t0.frames@ && t1.stack@ == s.take(s.len() - 3)
                            } else {
                                res == Err::<PengStackStep, PengError>(
                                    PengError::IndexOutOfBounds { index: i as usize, len: items.len() as usize },
                                ) && same
                            },
                        },
                        PengHeapValueV::Object(_) | PengHeapValueV::Module(_) => wrong_kind(iv),
                        PengHeapValueV::Type => left,
                        _ => res matches Err(PengError::CannotSetIndex(m)) && m@ == "non-indexable heap value"@ && same,
                    }
                },
                _ => res == Err::<PengStackStep, PengError>(PengError::ExpectedReference) && same,
            },
        }
    }
}

fn find_field(fields: &Vec<(PengNamePoolPtr, PengBinded<PengCell>)>, name: PengNamePoolPtr) -> (res: Option<usize>)
    ensures
        res matches Some(k) ==> k < fields@.len() && field_index(fields@, name) == Some(k as int),
        res is None <==> field_index(fields@, name) is None,
{
    proof {
        lemma_first_field(fields@, name, 0);
    }
    let mut i: usize = 0;
    while i < fields.len()
        invariant
            i <= fields@.len(),
            first_field(fields@, name, 0) == first_field(fields@, name, i as int),
        decreases fields@.len() - i,
    {
        if fields[i].0 == name {
            assert(first_field(fields@, name, i as int) == Some(i as int));
            return Some(i);
        }
        i = i + 1;
    }
    proof {
        lemma_first_field(fields@, name, 0);
    }
    None
}

fn set_field(fields: &Vec<(PengNamePoolPtr, PengBinded<PengCell>)>, name: PengNamePoolPtr, value: PengBinded<PengCell>) -> (res: Vec<
    (PengNamePoolPtr, PengBinded<PengCell>),
>)
    ensures
        res@ == with_field(fields@, name, value),
{
    let mut copy = copy_named_cells(fields);
    match find_field(fields, name) {
        Some(k) => {
            assert(field_index(fields@, name) is Some);
            assert(field_index(fields@, name) == Some(k as int));
            copy.set(k, (name, value));
            assert(copy@ == fields@.update(k as int, (name, value)));
        },
        None => {
            copy.push((name, value));
            assert(copy@ == fields@.push((name, value)));
        },
    }
    copy
}

/// Runs the instructions `access_effect` speaks of.
pub fn execute_access_instruction(
    heap: &mut PengHeap,
    thread: &mut PengCallStack,
    instruction: PengInstruction,
) -> (res: Result<PengStackStep, PengError>)
    requires
        old(heap).next_ptr() < usize::MAX,
    ensures
        crate::heap::functions_kept(old(heap)@, final(heap)@),
        final(heap).next_ptr() == crate::heap::next_after(old(heap)@, final(heap)@, old(heap).next_ptr()),
        access_effect(old(heap)@, old(heap).next_ptr(), *old(thread), final(heap)@, *final(thread), instruction, res),
{
    let n = thread.stack.len();
    proof {
        assert forall|k: usize| #[trigger] old(heap)@.contains_key(k) && old(heap)@[k] is Function implies exists|q: usize|
            old(heap)@.contains_key(q) && old(heap)@[q] == old(heap)@[k] by {}
    }
    match instruction {
        PengInstruction::MakeImmutable => {
            if n == 0 {
                return Err(PengError::StackUnderflow.push(PengError::InvalidInstruction(instruction)));
            }
            let value = *thread.stack[n - 1].value();
            let _ = thread.stack.pop();
            thread.stack.push(PengBinded::Immutable(value));
            Ok(PengStackStep::Done)
        },
        PengInstruction::GetConstAttribute(name) | PengInstruction::GetConstMember(name) => {
            let member = match instruction {
                PengInstruction::GetConstMember(_) => true,
                _ => false,
            };
            if n == 0 {
                return Err(PengError::StackUnderflow.push(PengError::InvalidInstruction(instruction)));
            }
            let base = copy_cell(&thread.stack[n - 1]);
            let ptr = match base.value() {
                PengCell::Reference(ptr) => *ptr,
                _ => return Err(PengError::ExpectedReference),
            };
            let fields = match heap.get_heap(ptr) {
                Some(PengHeapValue::Module(ms)) => ms,
                Some(PengHeapValue::Object(fs)) => {
                    if member {
                        return Err(PengError::ExpectedModule);
                    }
                    fs
                },
                Some(_) => {
                    if member {
                        return Err(PengError::ExpectedModule);
                    }
                    return Ok(PengStackStep::NotHandled);
                },
                None => return Err(PengError::HeapValueNotFound(ptr)),
            };
            let found = match find_field(fields, name) {
                Some(k) => copy_cell(&fields[k].1),
                None => {
                    if member {
                        return Err(PengError::AttributeNotFound(name));
                    }
                    return Ok(PengStackStep::NotHandled);
                },
            };
            let value = match base {
                PengBinded::Mutable(_) => PengBinded::Mutable(*found.value()),
                PengBinded::Immutable(_) => PengBinded::Immutable(*found.value()),
            };
            let _ = thread.stack.pop();
            thread.stack.push(value);
            Ok(PengStackStep::Done)
        },
        PengInstruction::SetConstAttribute(name) | PengInstruction::SetConstMember(name) => {
            let member = match instruction {
                PengInstruction::SetConstMember(_) => true,
                _ => false,
            };
            if n < 2 {
                return Err(PengError::StackUnderflow.push(PengError::InvalidInstruction(instruction)));
            }
            let value = copy_cell(&thread.stack[n - 1]);
            let ptr = match &thread.stack[n - 2] {
                PengBinded::Immutable(_) => return Err(PengError::CannotMutateImmutable),
                PengBinded::Mutable(PengCell::Reference(ptr)) => *ptr,
                PengBinded::Mutable(_) => return Err(PengError::ExpectedReference),
            };
            let updated = match heap.get_heap(ptr) {
                Some(PengHeapValue::Module(ms)) => {
                    if !member {
                        return Err(PengError::ExpectedObject);
                    }
                    PengHeapValue::Module(set_field(ms, name, value))
                },
                Some(PengHeapValue::Object(fs)) => {
                    if member {
                        return Err(PengError::ExpectedModule);
                    }
                    match find_field(fs, name) {
                        Some(k) => match fs[k].1 {
                            PengBinded::Immutable(_) => {
                                proof {
                                    let s = old(thread).stack@;
                                    assert(s[s.len() - 2].bound() == PengCell::Reference(ptr));
                                    assert(old(heap)@[ptr.0] == PengHeapValueV::Object(fs@));
                                    assert(field_index(fs@, name) == Some(k as int));
                                    assert(fs@[k as int].1 is Immutable);
                                }
                                return Err(PengError::CannotMutateImmutable);
                            },
                            PengBinded::Mutable(_) => {},
                        },
                        None => {},
                    }
                    PengHeapValue::Object(set_field(fs, name, value))
                },
                Some(PengHeapValue::Type) => {
                    if member {
                        return Err(PengError::ExpectedModule);
                    }
                    return Ok(PengStackStep::NotHandled);
                },
                Some(_) => {
                    if member {
                        return Err(PengError::ExpectedModule);
                    }
                    return Err(PengError::ExpectedObject);
                },
                None => return Err(PengError::HeapValueNotFound(ptr)),
            };
            let _ = heap.assign_heap(ptr, updated);
            let _ = thread.stack.pop();
            let _ = thread.stack.pop();
            proof {
                assert(thread.stack@ =~= old(thread).stack@.take(n - 2));
            }
            Ok(PengStackStep::Done)
        },
        PengInstruction::Concat => {
            if n < 2 {
                return Err(PengError::StackUnderflow.push(PengError::InvalidInstruction(instruction)));
            }
            let left = match heap.get_value_from_cell(*thread.stack[n - 2].value()) {
                Ok(v) => v,
                Err(e) => return Err(e.push(PengError::InvalidInstruction(instruction))),
            };
            let right = match heap.get_value_from_cell(*thread.stack[n - 1].value()) {
                Ok(v) => v,
                Err(e) => return Err(e.push(PengError::InvalidInstruction(instruction))),
            };
            let joined = match (left, right) {
                (PengHeapValue::String(a), PengHeapValue::String(b)) => {
                    let mut joined = a;
                    joined.append(b.as_str());
                    joined
                },
                _ => return Ok(PengStackStep::NotHandled),
            };
            let _ = thread.stack.pop();
            let _ = thread.stack.pop();
            let ptr = heap.create_heap_value(PengHeapValue::String(joined));
            thread.stack.push(PengBinded::Mutable(PengCell::Reference(ptr)));
            proof {
                assert(thread.stack@ =~= old(thread).stack@.take(n - 2).push(
                    PengBinded::Mutable(PengCell::Reference(ptr)),
                ));
            }
            Ok(PengStackStep::Done)
        },
        _ => Ok(PengStackStep::NotHandled),
    }
}

/// Runs `GetIndex` (see `index_effect`).
pub fn execute_get_index(heap: &mut PengHeap, thread: &mut PengCallStack) -> (res: Result<PengStackStep, PengError>)
    requires
        old(heap).next_ptr() < usize::MAX,
    ensures
        crate::heap::functions_kept(old(heap)@, final(heap)@),
        final(heap).next_ptr() == crate::heap::next_after(old(heap)@, final(heap)@, old(heap).next_ptr()),
        index_effect(old(heap)@, old(heap).next_ptr(), *old(thread), final(heap)@, *final(thread), res),
{
    let instruction = PengInstruction::GetIndex;
    proof {
        assert forall|k: usize| #[trigger] old(heap)@.contains_key(k) && old(heap)@[k] is Function implies exists|q: usize|
            old(heap)@.contains_key(q) && old(heap)@[q] == old(heap)@[k] by {}
    }
    let n = thread.stack.len();
    if n < 2 {
        return Err(PengError::StackUnderflow.push(PengError::InvalidInstruction(instruction)));
    }
    let base = copy_cell(&thread.stack[n - 2]);
    let index_value = match heap.get_value_from_cell(*thread.stack[n - 1].value()) {
        Ok(v) => v,
        Err(e) => return Err(e.push(PengError::InvalidInstruction(instruction))),
    };
    let number: Option<usize> = match &index_value {
        PengHeapValue::String(_) => return Ok(PengStackStep::NotHandled),
        PengHeapValue::Cell(PengCell::Int(v)) => {
            if *v < 0 {
                return Err(PengError::InvalidIndexTypeValue(index_value));
            }
            Some(*v as usize)
        },
        PengHeapValue::Cell(PengCell::Uint(v)) => Some(*v),
        _ => None,
    };
    let ptr = match base.value() {
        PengCell::Reference(ptr) => *ptr,
        _ => return Err(PengError::CannotIndexValue(String::from_str("non-indexable value"))),
    };
    let value = match heap.get_heap(ptr) {
        Some(PengHeapValue::Vector(items)) => {
            let index = match number {
                Some(index) => index,
                None => return Err(PengError::InvalidIndexTypeValue(index_value)),
            };
            if index >= items.len() {
                return Err(PengError::IndexOutOfBounds { index, len: items.len() });
            }
            copy_cell(&items[index])
        },
        Some(PengHeapValue::String(text)) => {
            let index = match number {
                Some(index) => index,
                None => return Err(PengError::InvalidIndexTypeValue(index_value)),
            };
            let len = text.as_str().unicode_len();
            if index >= len {
                return Err(PengError::IndexOutOfBounds { index, len });
            }
            let ch = text.as_str().get_char(index);
            let mut one = String::new();
            crate::lexer::token::push_char(&mut one, ch);
            proof {
                assert(one@ =~= seq![text@[index as int]]);
            }
            let at = heap.create_heap_value(PengHeapValue::String(one));
            PengBinded::Mutable(PengCell::Reference(at))
        },
        Some(PengHeapValue::Object(_)) | Some(PengHeapValue::Module(_)) => {
            return Err(PengError::InvalidIndexTypeValue(index_value));
        },
        Some(PengHeapValue::Type) | Some(PengHeapValue::Cell(PengCell::Reference(_))) => {
            return Ok(PengStackStep::NotHandled);
        },
        Some(_) => return Err(PengError::CannotIndexValue(String::from_str("non-indexable value"))),
        None => return Err(PengError::HeapValueNotFound(ptr)),
    };
    let value = match base {
        PengBinded::Mutable(_) => PengBinded::Mutable(*value.value()),
        PengBinded::Immutable(_) => PengBinded::Immutable(*value.value()),
    };
    let _ = thread.stack.pop();
    let _ = thread.stack.pop();
    thread.stack.push(value);
    proof {
        assert(thread.stack@ =~= old(thread).stack@.take(n - 2).push(value));
    }
    Ok(PengStackStep::Done)
}

/// Runs `SetIndex` (see `set_index_effect`).
pub fn execute_set_index(heap: &mut PengHeap, thread: &mut PengCallStack) -> (res: Result<PengStackStep, PengError>)
    ensures
        crate::heap::functions_kept(old(heap)@, final(heap)@),
        final(heap).next_ptr() == old(heap).next_ptr(),
        set_index_effect(old(heap)@, *old(thread), final(heap)@, *final(thread), res),
{
    let instruction = PengInstruction::SetIndex;
    proof {
        assert forall|k: usize| #[trigger] old(heap)@.contains_key(k) && old(heap)@[k] is Function implies exists|q: usize|
            old(heap)@.contains_key(q) && old(heap)@[q] == old(heap)@[k] by {}
    }
    let n = thread.stack.len();
    if n < 3 {
        return Err(PengError::StackUnderflow.push(PengError::InvalidInstruction(instruction)));
    }
    match thread.stack[n - 3] {
        PengBinded::Immutable(_) => return Err(PengError::CannotMutateImmutable),
        PengBinded::Mutable(_) => {},
    }
    let index_value = match heap.get_value_from_cell(*thread.stack[n - 2].value()) {
        Ok(v) => v,
        Err(e) => return Err(e.push(PengError::InvalidInstruction(instruction))),
    };
    let ptr = match thread.stack[n - 3].value() {
        PengCell::Reference(ptr) => *ptr,
        _ => return Err(PengError::ExpectedReference),
    };
    let updated = match heap.get_heap(ptr) {
        None => return Err(PengError::HeapValueNotFound(ptr)),
        Some(PengHeapValue::String(_)) | Some(PengHeapValue::Cell(PengCell::Reference(_))) => {
            return Ok(PengStackStep::NotHandled);
        },
        Some(target) => {
            let number: Option<usize> = match &index_value {
                PengHeapValue::String(_) => return Ok(PengStackStep::NotHandled),
                PengHeapValue::Cell(PengCell::Int(v)) => {
                    if *v < 0 {
                        return Err(PengError::InvalidIndexTypeValue(index_value));
                    }
                    Some(*v as usize)
                },
                PengHeapValue::Cell(PengCell::Uint(v)) => Some(*v),
                _ => None,
            };
            match target {
                PengHeapValue::Vector(items) => {
                    let index = match number {
                        Some(index) => index,
                        None => return Err(PengError::InvalidIndexTypeValue(index_value)),
                    };
                    if index >= items.len() {
                        return Err(PengError::IndexOutOfBounds { index, len: items.len() });
                    }
                    let mut copy = crate::heap::copy_cells(items);
                    copy.set(index, copy_cell(&thread.stack[n - 1]));
                    PengHeapValue::Vector(copy)
                },
                PengHeapValue::Object(_) | PengHeapValue::Module(_) => {
                    return Err(PengError::InvalidIndexTypeValue(index_value));
                },
                PengHeapValue::Type => return Ok(PengStackStep::NotHandled),
                _ => return Err(PengError::CannotSetIndex(String::from_str("non-indexable heap value"))),
            }
        },
    };
    let _ = heap.assign_heap(ptr, updated);
    let _ = thread.stack.pop();
    let _ = thread.stack.pop();
    let _ = thread.stack.pop();
    proof {
        assert(thread.stack@ =~= old(thread).stack@.take(n - 3));
    }
    Ok(PengStackStep::Done)
}

} // verus!
