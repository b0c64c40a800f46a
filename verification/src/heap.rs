use vstd::prelude::*;
use crate::binding::PengBinded;
use crate::call::{copy_cell, PengCell};
use crate::error::PengError;
use crate::function::PengBytecodeFunctionParams;
use crate::instruction::PengInstruction;
use crate::position::PengPosition;
use crate::utils::{copy_vec, PengHeapPtr, PengNamePoolPtr};

verus! {

/// What kind of function a heap value is: a native one, or bytecode with its parameters.
#[derive(Debug, Clone, Copy, PartialEq, Eq, Structural)]
pub enum PengFunctionKind {
    Native,
    Bytecode(PengBytecodeFunctionParams),
}

/// A value on the heap: a cell, a string, a vector or an object or module of named
/// cells, a function with its code, where each instruction came from and the constants
/// its code pushes (none for a native one); types, threads and operations are held only by their kind.
#[derive(Debug)]
pub enum PengHeapValue {
    Cell(PengCell),
    String(String),
    Vector(Vec<PengBinded<PengCell>>),
    Object(Vec<(PengNamePoolPtr, PengBinded<PengCell>)>),
    Module(Vec<(PengNamePoolPtr, PengBinded<PengCell>)>),
    Function(PengFunctionKind, Vec<PengInstruction>, Vec<PengPosition>, Vec<PengCell>),
    Type,
    Thread,
    Operation,
}

/// A heap value, its string and lists taken by their contents.
pub enum PengHeapValueV {
    Cell(PengCell),
    String(Seq<char>),
    Vector(Seq<PengBinded<PengCell>>),
    Object(Seq<(PengNamePoolPtr, PengBinded<PengCell>)>),
    Module(Seq<(PengNamePoolPtr, PengBinded<PengCell>)>),
    Function(PengFunctionKind, Seq<PengInstruction>, Seq<PengPosition>, Seq<PengCell>),
    Type,
    Thread,
    Operation,
}

impl View for PengHeapValue {
    type V = PengHeapValueV;

    open spec fn view(&self) -> PengHeapValueV {
        match self {
            PengHeapValue::Cell(c) => PengHeapValueV::Cell(*c),
            PengHeapValue::String(s) => PengHeapValueV::String(s@),
            PengHeapValue::Vector(v) => PengHeapValueV::Vector(v@),
            PengHeapValue::Object(v) => PengHeapValueV::Object(v@),
            PengHeapValue::Module(v) => PengHeapValueV::Module(v@),
            PengHeapValue::Function(k, c, p, x) => PengHeapValueV::Function(*k, c@, p@, x@),
            PengHeapValue::Type => PengHeapValueV::Type,
            PengHeapValue::Thread => PengHeapValueV::Thread,
            PengHeapValue::Operation => PengHeapValueV::Operation,
        }
    }
}

pub(crate) fn copy_cells(v: &Vec<PengBinded<PengCell>>) -> (res: Vec<PengBinded<PengCell>>)
    ensures
        res@ == v@,
{
    let mut res: Vec<PengBinded<PengCell>> = Vec::new();
    let mut i: usize = 0;
    while i < v.len()
        invariant
            i <= v@.len(),
            res@ == v@.take(i as int),
        decreases v@.len() - i,
    {
        res.push(copy_cell(&v[i]));
        assert(res@ =~= v@.take(i + 1));
        i = i + 1;
    }
    assert(v@.take(i as int) =~= v@);
    res
}

pub(crate) fn copy_named_cells(v: &Vec<(PengNamePoolPtr, PengBinded<PengCell>)>) -> (res: Vec<(PengNamePoolPtr, PengBinded<PengCell>)>)
    ensures
        res@ == v@,
{
    let mut res: Vec<(PengNamePoolPtr, PengBinded<PengCell>)> = Vec::new();
    let mut i: usize = 0;
    while i < v.len()
        invariant
            i <= v@.len(),
            res@ == v@.take(i as int),
        decreases v@.len() - i,
    {
        let (name, cell) = &v[i];
        res.push((*name, copy_cell(cell)));
        assert(res@ =~= v@.take(i + 1));
        i = i + 1;
    }
    assert(v@.take(i as int) =~= v@);
    res
}

impl PengHeapValue {
    /// A copy of the value.
    pub fn copy(&self) -> (res: Self)
        ensures
            res@ == self@,
    {
        match self {
            PengHeapValue::Cell(c) => PengHeapValue::Cell(*c),
            PengHeapValue::String(s) => PengHeapValue::String(s.clone()),
            PengHeapValue::Vector(v) => PengHeapValue::Vector(copy_cells(v)),
            PengHeapValue::Object(v) => PengHeapValue::Object(copy_named_cells(v)),
            PengHeapValue::Module(v) => PengHeapValue::Module(copy_named_cells(v)),
            PengHeapValue::Function(k, c, p, x) => PengHeapValue::Function(*k, copy_vec(c), copy_vec(p), copy_vec(x)),
            PengHeapValue::Type => PengHeapValue::Type,
            PengHeapValue::Thread => PengHeapValue::Thread,
            PengHeapValue::Operation => PengHeapValue::Operation,
        }
    }
}

/// The heap: the values by their address. New values get the address after the last
/// one ever given.
pub struct PengHeap {
    slots: Vec<Option<PengHeapValue>>,
}

impl View for PengHeap {
    type V = Map<usize, PengHeapValueV>;

    closed spec fn view(&self) -> Map<usize, PengHeapValueV> {
        Map::new(
            |k: usize| k < self.slots@.len() && self.slots@[k as int] is Some,
            |k: usize| self.slots@[k as int]->0@,
        )
    }
}

impl PengHeap {
    /// The address the next new value gets; no value is at it or after it.
    pub closed spec fn next_ptr(&self) -> int {
        self.slots@.len() as int
    }

    /// The next address is one past the highest address in use (0 when none is): every
    /// heap made and changed by these methods is so.
    pub open spec fn tight(&self) -> bool {
        self.next_ptr() == 0 || self@.contains_key((self.next_ptr() - 1) as usize)
    }

    pub proof fn lemma_fresh(&self, k: usize)
        ensures
            k >= self.next_ptr() ==> !self@.contains_key(k),
    {
    }

    pub fn new() -> (res: Self)
        ensures
            res@ == Map::<usize, PengHeapValueV>::empty(),
            res.next_ptr() == 0,
            res.tight(),
    {
        let res = PengHeap { slots: Vec::new() };
        assert(res@ =~= Map::<usize, PengHeapValueV>::empty());
        res
    }

    /// The value at `value`, if there is one.
    pub fn get_heap(&self, value: PengHeapPtr) -> (res: Option<&PengHeapValue>)
        ensures
            res is Some <==> self@.contains_key(value.0),
            res matches Some(v) ==> v@ == self@[value.0],
    {
        if value.0 < self.slots.len() {
            match &self.slots[value.0] {
                Some(v) => Some(v),
                None => None,
            }
        } else {
            None
        }
    }

    /// Puts a new value on the heap, at the next address (one past the highest address in
    /// use, for a heap that is `tight`), and gives its address.
    pub fn create_heap_value(&mut self, value: PengHeapValue) -> (res: PengHeapPtr)
        requires
            old(self).next_ptr() < usize::MAX,
        ensures
            res.0 == old(self).next_ptr(),
            !old(self)@.contains_key(res.0),
            final(self)@ == old(self)@.insert(res.0, value@),
            final(self).next_ptr() == old(self).next_ptr() + 1,
            final(self).tight(),
    {
        let ptr = self.slots.len();
        let ghost v = value@;
        self.slots.push(Some(value));
        assert(self@ =~= old(self)@.insert(ptr, v));
        PengHeapPtr(ptr)
    }

    /// Replaces the value at `heap`; there must be one.
    pub fn assign_heap(&mut self, heap: PengHeapPtr, value: PengHeapValue) -> (res: Result<(), PengError>)
        ensures
            old(self)@.contains_key(heap.0) ==> res is Ok && final(self)@ == old(self)@.insert(heap.0, value@),
            !old(self)@.contains_key(heap.0) ==> res == Err::<(), PengError>(PengError::HeapValueNotFound(heap))
                && final(self)@ == old(self)@,
            final(self).next_ptr() == old(self).next_ptr(),
            old(self).tight() ==> final(self).tight(),
    {
        if heap.0 < self.slots.len() && self.slots[heap.0].is_some() {
            let ghost v = value@;
            self.slots.set(heap.0, Some(value));
            assert(self@ =~= old(self)@.insert(heap.0, v));
            Ok(())
        } else {
            Err(PengError::HeapValueNotFound(heap))
        }
    }

    /// The value a cell stands for: what a reference points to, or the cell itself.
    pub fn get_value_from_cell(&self, cell: PengCell) -> (res: Result<PengHeapValue, PengError>)
        ensures
            match cell {
                PengCell::Reference(p) => if self@.contains_key(p.0) {
                    res matches Ok(v) && v@ == self@[p.0]
                } else {
                    res == Err::<PengHeapValue, PengError>(PengError::HeapValueNotFound(p))
                },
                _ => res matches Ok(v) && v@ == PengHeapValueV::Cell(cell),
            },
    {
        match cell {
            PengCell::Reference(ptr) => match self.get_heap(ptr) {
                Some(value) => Ok(value.copy()),
                None => Err(PengError::HeapValueNotFound(ptr)),
            },
            _ => Ok(PengHeapValue::Cell(cell)),
        }
    }
}

} // verus!

verus! {

/// No function on the heap is variadic with the largest number of fixed parameters.
pub open spec fn no_max_variadic(h: Map<usize, PengHeapValueV>) -> bool {
    forall|k: usize|
        #[trigger] h.contains_key(k) ==> !(h[k] matches PengHeapValueV::Function(
            PengFunctionKind::Bytecode(PengBytecodeFunctionParams::Variadic(f)),
            _,
            _,
            _,
        ) && f == usize::MAX)
}

/// No code on the heap calls with the largest number of arguments.
pub open spec fn no_max_calls(h: Map<usize, PengHeapValueV>) -> bool {
    forall|k: usize|
        #[trigger] h.contains_key(k) ==> !(h[k] matches PengHeapValueV::Function(_, code, _, _) && (code.contains(
            PengInstruction::FunctionCall(usize::MAX),
        ) || code.contains(PengInstruction::TryFunctionCall(usize::MAX))))
}

/// What running code needs of the heap.
pub open spec fn runnable_heap(h: Map<usize, PengHeapValueV>) -> bool {
    no_max_variadic(h) && no_max_calls(h)
}

/// The value can be run: it is no variadic function with the largest number of fixed
/// parameters, and no code that calls with the largest number of arguments.
pub open spec fn runnable_value(v: PengHeapValueV) -> bool {
    &&& !(v matches PengHeapValueV::Function(
        PengFunctionKind::Bytecode(PengBytecodeFunctionParams::Variadic(f)),
        _,
        _,
        _,
    ) && f == usize::MAX)
    &&& !(v matches PengHeapValueV::Function(_, code, _, _) && (code.contains(PengInstruction::FunctionCall(usize::MAX))
        || code.contains(PengInstruction::TryFunctionCall(usize::MAX))))
}

fn calls_at_most(code: &Vec<PengInstruction>) -> (res: bool)
    ensures
        res == !(code@.contains(PengInstruction::FunctionCall(usize::MAX)) || code@.contains(
            PengInstruction::TryFunctionCall(usize::MAX),
        )),
{
    let mut i: usize = 0;
    while i < code.len()
        invariant
            i <= code@.len(),
            forall|j: int|
                0 <= j < i ==> #[trigger] code@[j] != PengInstruction::FunctionCall(usize::MAX) && code@[j]
                    != PengInstruction::TryFunctionCall(usize::MAX),
        decreases code@.len() - i,
    {
        match code[i] {
            PengInstruction::FunctionCall(n) | PengInstruction::TryFunctionCall(n) => {
                if n == usize::MAX {
                    assert(code@[i as int] == code@[i as int]);
                    return false;
                }
            },
            _ => {},
        }
        i = i + 1;
    }
    true
}

fn value_runnable(v: &PengHeapValue) -> (res: bool)
    ensures
        res == runnable_value(v@),
{
    match v {
        PengHeapValue::Function(kind, code, _, _) => {
            match kind {
                PengFunctionKind::Bytecode(PengBytecodeFunctionParams::Variadic(f)) => {
                    if *f == usize::MAX {
                        return false;
                    }
                },
                _ => {},
            }
            calls_at_most(code)
        },
        _ => true,
    }
}

impl PengHeap {
    /// The address the next new value gets.
    pub fn next_address(&self) -> (res: usize)
        ensures
            res == self.next_ptr(),
    {
        self.slots.len()
    }

    /// Whether every value on the heap can be run (see `runnable_heap`).
    pub fn is_runnable(&self) -> (res: bool)
        ensures
            res == runnable_heap(self@),
    {
        let mut i: usize = 0;
        while i < self.slots.len()
            invariant
                i <= self.slots@.len(),
                forall|k: usize| k < i && #[trigger] self@.contains_key(k) ==> runnable_value(self@[k]),
            decreases self.slots@.len() - i,
        {
            match &self.slots[i] {
                Some(v) => {
                    if !value_runnable(v) {
                        assert(self@.contains_key(i));
                        return false;
                    }
                },
                None => {},
            }
            i = i + 1;
        }
        assert forall|k: usize| #[trigger] self@.contains_key(k) implies runnable_value(self@[k]) by {}
        true
    }
}

/// Every function in `h1` was already in `h0`.
pub open spec fn functions_kept(h0: Map<usize, PengHeapValueV>, h1: Map<usize, PengHeapValueV>) -> bool {
    forall|k: usize|
        #[trigger] h1.contains_key(k) && h1[k] is Function ==> exists|q: usize| h0.contains_key(q) && h0[q] == h1[k]
}

/// A heap that gains no new function stays runnable.
pub proof fn lemma_runnable_kept(h0: Map<usize, PengHeapValueV>, h1: Map<usize, PengHeapValueV>)
    requires
        runnable_heap(h0),
        functions_kept(h0, h1),
    ensures
        runnable_heap(h1),
{
    assert forall|k: usize| #[trigger] h1.contains_key(k) implies !(h1[k] matches PengHeapValueV::Function(
        PengFunctionKind::Bytecode(PengBytecodeFunctionParams::Variadic(f)),
        _,
        _,
        _,
    ) && f == usize::MAX) by {
        if h1[k] is Function {
            let q = choose|q: usize| h0.contains_key(q) && h0[q] == h1[k];
            assert(h0.contains_key(q));
        }
    }
    assert forall|k: usize| #[trigger] h1.contains_key(k) implies !(h1[k] matches PengHeapValueV::Function(_, code, _, _)
        && (code.contains(PengInstruction::FunctionCall(usize::MAX)) || code.contains(
        PengInstruction::TryFunctionCall(usize::MAX),
    ))) by {
        if h1[k] is Function {
            let q = choose|q: usize| h0.contains_key(q) && h0[q] == h1[k];
            assert(h0.contains_key(q));
        }
    }
}

/// The next address after a change from `h0` to `h1`, when it was `next` before: one
/// further when a value was put at `next`.
pub open spec fn next_after(h0: Map<usize, PengHeapValueV>, h1: Map<usize, PengHeapValueV>, next: int) -> int {
    if 0 <= next <= usize::MAX && h1.contains_key(next as usize) && !h0.contains_key(next as usize) {
        next + 1
    } else {
        next
    }
}

/// What the heap holds at `p`, as far as a call needs to know.
pub open spec fn callee_of(heap: Map<usize, PengHeapValueV>, p: PengHeapPtr) -> crate::call::PengCallee {
    if !heap.contains_key(p.0) {
        crate::call::PengCallee::Missing
    } else {
        match heap[p.0] {
            PengHeapValueV::Function(PengFunctionKind::Native, _, _, _) => crate::call::PengCallee::Native,
            PengHeapValueV::Function(PengFunctionKind::Bytecode(params), _, _, _) => crate::call::PengCallee::Bytecode(params),
            _ => crate::call::PengCallee::NotAFunction,
        }
    }
}

/// What calling the function below `args_count` arguments does to the heap `h0` (whose
/// next address is `next`) and the thread `t0`, giving `h1`, `t1` and `res`.
pub open spec fn call_effect(
    h0: Map<usize, PengHeapValueV>,
    next: int,
    t0: crate::call::PengCallStack,
    h1: Map<usize, PengHeapValueV>,
    t1: crate::call::PengCallStack,
    args_count: usize,
    is_try: bool,
    res: Result<(), PengError>,
) -> bool {
    let s = t0.stack@;
    let base = crate::call::call_base(s, args_count);
    let args = s.skip(base + 1);
    if s.len() < args_count + 1 {
        res matches Err(PengError::StackUnderflow) && t1 == t0 && h1 == h0
    } else {
        match s[base].bound() {
            PengCell::Reference(p) => match callee_of(h0, p) {
                crate::call::PengCallee::Missing => res == Err::<(), PengError>(
                    PengError::HeapValueNotFound(p),
                ) && t1 == t0 && h1 == h0,
                crate::call::PengCallee::NotAFunction => res matches Err(PengError::ExpectedFunction)
                    && t1 == t0 && h1 == h0,
                crate::call::PengCallee::Native => res is Ok && h1 == h0
                    && t1.stack@ == s.remove(base) && t1.frames@.len()
                    == t0.frames@.len() + 1 && t1.frames@.drop_last()
                    == t0.frames@ && t1.frames@.last().fresh(
                    p,
                    base as usize,
                    args_count,
                    is_try,
                    None,
                ),
                crate::call::PengCallee::Bytecode(PengBytecodeFunctionParams::Fixed(k)) => res is Ok
                    && h1 == h0 && t1.stack@ == s.take(base)
                    + crate::call::padded_args(args, k as nat) && t1.frames@.len()
                    == t0.frames@.len() + 1 && t1.frames@.drop_last()
                    == t0.frames@ && t1.frames@.last().fresh(
                    p,
                    base as usize,
                    k,
                    is_try,
                    None,
                ),
                crate::call::PengCallee::Bytecode(PengBytecodeFunctionParams::Variadic(k)) => {
                    let r = next as usize;
                    &&& res is Ok
                    &&& h1 == h0.insert(
                        r,
                        PengHeapValueV::Vector(crate::call::rest_args(args, k as nat)),
                    ) && !h0.contains_key(r) && t1.stack@ == s.take(base)
                        + crate::call::padded_args(args, k as nat).push(
                        PengBinded::Mutable(PengCell::Reference(PengHeapPtr(r))),
                    ) && t1.frames@.len() == t0.frames@.len() + 1
                        && t1.frames@.drop_last() == t0.frames@
                        && t1.frames@.last().fresh(p, base as usize, (k + 1) as usize, is_try, None)
                },
            },
            _ => res matches Err(PengError::ExpectedReference) && t1 == t0
                && h1 == h0,
        }
    }
}

/// Calls the function below the `args_count` arguments on top of the thread's stack. A
/// variadic function gets its extra arguments as a new vector on the heap, referred to by
/// its last parameter. On an error nothing changes.
pub fn call_function(
    heap: &mut PengHeap,
    thread: &mut crate::call::PengCallStack,
    args_count: usize,
    is_try: bool,
) -> (res: Result<(), PengError>)
    requires
        args_count < usize::MAX,
        old(heap).next_ptr() < usize::MAX,
        no_max_variadic(old(heap)@),
    ensures
        functions_kept(old(heap)@, final(heap)@),
        final(heap).next_ptr() <= old(heap).next_ptr() + 1,
        final(heap).next_ptr() == next_after(old(heap)@, final(heap)@, old(heap).next_ptr()),
        call_effect(
            old(heap)@,
            old(heap).next_ptr(),
            *old(thread),
            final(heap)@,
            *final(thread),
            args_count,
            is_try,
            res,
        ),
{
    let function = match crate::call::call_target(thread, args_count) {
        Ok(p) => p,
        Err(e) => return Err(e),
    };
    let callee = match heap.get_heap(function) {
        Some(PengHeapValue::Function(PengFunctionKind::Native, _, _, _)) => crate::call::PengCallee::Native,
        Some(PengHeapValue::Function(PengFunctionKind::Bytecode(params), _, _, _)) => crate::call::PengCallee::Bytecode(*params),
        Some(_) => crate::call::PengCallee::NotAFunction,
        None => crate::call::PengCallee::Missing,
    };
    match crate::call::execute_function_call(thread, callee, args_count, is_try) {
        Ok(crate::call::PengCallOutcome::Entered) => Ok(()),
        Ok(crate::call::PengCallOutcome::NeedsRest { function, base, fixed_count, rest }) => {
            let vector = heap.create_heap_value(PengHeapValue::Vector(rest));
            crate::call::finish_variadic_call(thread, function, base, fixed_count, vector, is_try);
            Ok(())
        },
        Err(e) => Err(e),
    }
}

} // verus!

verus! {

/// The addresses a cell refers to.
pub open spec fn cell_refers(c: PengCell, k: usize) -> bool {
    c == PengCell::Reference(PengHeapPtr(k))
}

/// Whether one of the first `n` cells refers to `k`.
pub open spec fn cells_refer(items: Seq<PengBinded<PengCell>>, n: int, k: usize) -> bool {
    exists|i: int| 0 <= i < n && cell_refers(items[i].bound(), k)
}

/// Whether one of the first `n` fields refers to `k`.
pub open spec fn fields_refer(fields: Seq<(PengNamePoolPtr, PengBinded<PengCell>)>, n: int, k: usize) -> bool {
    exists|i: int| 0 <= i < n && cell_refers(fields[i].1.bound(), k)
}

/// Whether the value `v` refers to the address `k`.
pub open spec fn refers_to(v: PengHeapValueV, k: usize) -> bool {
    match v {
        PengHeapValueV::Cell(c) => cell_refers(c, k),
        PengHeapValueV::Vector(items) => cells_refer(items, items.len() as int, k),
        PengHeapValueV::Object(fields) => fields_refer(fields, fields.len() as int, k),
        PengHeapValueV::Module(fields) => fields_refer(fields, fields.len() as int, k),
        _ => false,
    }
}

/// A set of addresses that holds whatever its values on the heap refer to.
pub open spec fn closed_under(h: Map<usize, PengHeapValueV>, s: Set<usize>) -> bool {
    forall|k: usize, c: usize| #[trigger] s.contains(k) && h.contains_key(k) && #[trigger] refers_to(h[k], c) ==> s.contains(c)
}

/// A value is reachable from the roots when every set that holds the roots and whatever
/// its values refer to holds it.
pub open spec fn reachable(h: Map<usize, PengHeapValueV>, roots: Set<usize>, k: usize) -> bool {
    &&& h.contains_key(k)
    &&& forall|s: Set<usize>| roots.subset_of(s) && closed_under(h, s) ==> #[trigger] s.contains(k)
}

fn push_refs(c: &PengBinded<PengCell>, work: &mut Vec<usize>)
    ensures
        forall|k: usize| old(work)@.contains(k) ==> final(work)@.contains(k),
        forall|k: usize| cell_refers(c.bound(), k) ==> final(work)@.contains(k),
        forall|k: usize| #[trigger] final(work)@.contains(k) ==> old(work)@.contains(k) || cell_refers(c.bound(), k),
{
    match c.value() {
        PengCell::Reference(p) => {
            work.push(p.0);
            assert(work@[work@.len() - 1] == p.0);
            assert forall|k: usize| old(work)@.contains(k) implies work@.contains(k) by {
                let i = choose|i: int| 0 <= i < old(work)@.len() && old(work)@[i] == k;
                assert(work@[i] == k);
            }
            assert forall|k: usize| #[trigger] work@.contains(k) implies old(work)@.contains(k) || cell_refers(c.bound(), k) by {
                let i = choose|i: int| 0 <= i < work@.len() && work@[i] == k;
                if i < old(work)@.len() {
                    assert(old(work)@[i] == work@[i]);
                }
            }
        },
        _ => {},
    }
}

impl PengHeap {
    /// Pushes the addresses the value at `k` refers to.
    fn push_children(&self, k: usize, work: &mut Vec<usize>)
        requires
            self@.contains_key(k),
        ensures
            forall|c: usize| old(work)@.contains(c) ==> final(work)@.contains(c),
            forall|c: usize| refers_to(self@[k], c) ==> final(work)@.contains(c),
            forall|c: usize| #[trigger] final(work)@.contains(c) ==> old(work)@.contains(c) || refers_to(self@[k], c),
    {
        assert(self@[k] == self.slots@[k as int]->0@);
        match &self.slots[k] {
            Some(PengHeapValue::Cell(c)) => {
                assert(self@[k] == PengHeapValueV::Cell(*c));
                let b = PengBinded::Mutable(*c);
                assert(b.bound() == *c);
                push_refs(&b, work);
                assert(forall|x: usize| refers_to(self@[k], x) ==> cell_refers(b.bound(), x));
            },
            Some(PengHeapValue::Vector(items)) => {
                let ghost w0 = work@;
                let mut i: usize = 0;
                while i < items.len()
                    invariant
                        i <= items@.len(),
                        forall|c: usize| w0.contains(c) ==> work@.contains(c),
                        forall|j: int, c: usize| 0 <= j < i && cell_refers(items@[j].bound(), c) ==> work@.contains(c),
                        forall|c: usize| #[trigger] work@.contains(c) ==> w0.contains(c) || cells_refer(items@, i as int, c),
                    decreases items@.len() - i,
                {
                    let ghost before = work@;
                    push_refs(&items[i], work);
                    proof {
                        assert forall|j: int, c: usize| 0 <= j < i + 1 && cell_refers(items@[j].bound(), c) implies work@.contains(c) by {
                            if j < i {
                                assert(before.contains(c));
                            }
                        }
                    }
                    i = i + 1;
                }
                assert(self@[k] == PengHeapValueV::Vector(items@));
                assert forall|c: usize| refers_to(self@[k], c) implies work@.contains(c) by {
                    let j = choose|j: int| 0 <= j < items@.len() && cell_refers(items@[j].bound(), c);
                }
                assert forall|c: usize| #[trigger] work@.contains(c) implies w0.contains(c) || refers_to(self@[k], c) by {
                    if !w0.contains(c) {
                        assert(i == items@.len());
                        assert(w0.contains(c) || exists|j: int| 0 <= j < i && cell_refers(items@[j].bound(), c));
                        let j = choose|j: int| 0 <= j < items@.len() && cell_refers(items@[j].bound(), c);
                        assert(refers_to(PengHeapValueV::Vector(items@), c));
                    }
                }
            },
            Some(PengHeapValue::Object(fields)) | Some(PengHeapValue::Module(fields)) => {
                let ghost w0 = work@;
                let mut i: usize = 0;
                while i < fields.len()
                    invariant
                        i <= fields@.len(),
                        forall|c: usize| w0.contains(c) ==> work@.contains(c),
                        forall|j: int, c: usize| 0 <= j < i && cell_refers(fields@[j].1.bound(), c) ==> work@.contains(c),
                        forall|c: usize| #[trigger] work@.contains(c) ==> w0.contains(c) || fields_refer(fields@, i as int, c),
                    decreases fields@.len() - i,
                {
                    let ghost before = work@;
                    push_refs(&fields[i].1, work);
                    proof {
                        assert forall|j: int, c: usize| 0 <= j < i + 1 && cell_refers(fields@[j].1.bound(), c) implies work@.contains(c) by {
                            if j < i {
                                assert(before.contains(c));
                            }
                        }
                    }
                    i = i + 1;
                }
                assert(self@[k] == PengHeapValueV::Object(fields@) || self@[k] == PengHeapValueV::Module(fields@));
                assert forall|c: usize| refers_to(self@[k], c) implies work@.contains(c) by {
                    let j = choose|j: int| 0 <= j < fields@.len() && cell_refers(fields@[j].1.bound(), c);
                }
                assert forall|c: usize| #[trigger] work@.contains(c) implies w0.contains(c) || refers_to(self@[k], c) by {
                    if !w0.contains(c) {
                        assert(i == fields@.len());
                        assert(w0.contains(c) || exists|j: int| 0 <= j < i && cell_refers(fields@[j].1.bound(), c));
                        let j = choose|j: int| 0 <= j < fields@.len() && cell_refers(fields@[j].1.bound(), c);
                        assert(refers_to(PengHeapValueV::Object(fields@), c));
                        assert(refers_to(PengHeapValueV::Module(fields@), c));
                    }
                }
            },
            _ => {
                assert(!(self@[k] is Cell) && !(self@[k] is Vector) && !(self@[k] is Object) && !(self@[k] is Module));
            },
        }
    }
}

} // verus!

verus! {

/// The addresses among `roots`.
pub open spec fn root_set(roots: Seq<PengHeapPtr>) -> Set<usize> {
    Set::new(|k: usize| exists|i: int| 0 <= i < roots.len() && roots[i].0 == k)
}

/// How many of the flags are set.
pub open spec fn count_set(s: Seq<bool>) -> nat
    decreases s.len(),
{
    if s.len() == 0 {
        0
    } else {
        count_set(s.drop_last()) + if s.last() {
            1nat
        } else {
            0nat
        }
    }
}

proof fn lemma_count_set_bound(s: Seq<bool>)
    ensures
        count_set(s) <= s.len(),
    decreases s.len(),
{
    if s.len() > 0 {
        lemma_count_set_bound(s.drop_last());
    }
}

proof fn lemma_count_set_update(s: Seq<bool>, k: int)
    requires
        0 <= k < s.len(),
        !s[k],
    ensures
        count_set(s.update(k, true)) == count_set(s) + 1,
    decreases s.len(),
{
    let t = s.update(k, true);
    if k == s.len() - 1 {
        assert(t.drop_last() =~= s.drop_last());
    } else {
        assert(t.drop_last() =~= s.drop_last().update(k, true));
        lemma_count_set_update(s.drop_last(), k);
    }
}

impl PengHeap {
    /// Frees every value that the roots cannot reach, and keeps the others as they are.
    pub fn mark_and_sweep(&mut self, roots: &Vec<PengHeapPtr>)
        ensures
            final(self).next_ptr() <= old(self).next_ptr(),
            final(self).tight(),
            forall|k: usize| #[trigger] final(self)@.contains_key(k) <==> reachable(old(self)@, root_set(roots@), k),
            forall|k: usize| #[trigger] final(self)@.contains_key(k) ==> final(self)@[k] == old(self)@[k],
    {
        let ghost h = self@;
        let ghost rs = root_set(roots@);
        let n = self.slots.len();
        let mut marks: Vec<bool> = Vec::new();
        let mut i: usize = 0;
        while i < n
            invariant
                i <= n,
                marks@.len() == i,
                forall|j: int| 0 <= j < i ==> !marks@[j],
            decreases n - i,
        {
            marks.push(false);
            i = i + 1;
        }
        proof {
            assert(count_set(marks@) == 0) by {
                let mut s = marks@;
                assert(forall|j: int| 0 <= j < s.len() ==> !s[j]);
                lemma_count_none(marks@);
            }
        }
        let mut work: Vec<usize> = Vec::new();
        let mut r: usize = 0;
        while r < roots.len()
            invariant
                r <= roots@.len(),
                forall|j: int| 0 <= j < r ==> work@.contains(#[trigger] roots@[j].0),
                forall|x: usize| #[trigger] work@.contains(x) ==> rs.contains(x),
                rs == root_set(roots@),
            decreases roots@.len() - r,
        {
            let ghost before = work@;
            work.push(roots[r].0);
            proof {
                assert(work@[work@.len() - 1] == roots@[r as int].0);
                assert forall|j: int| 0 <= j < r + 1 implies work@.contains(#[trigger] roots@[j].0) by {
                    if j < r {
                        let m = choose|m: int| 0 <= m < before.len() && before[m] == roots@[j].0;
                        assert(work@[m] == before[m]);
                    }
                }
                assert forall|x: usize| #[trigger] work@.contains(x) implies rs.contains(x) by {
                    let m = choose|m: int| 0 <= m < work@.len() && work@[m] == x;
                    if m < before.len() {
                        assert(before[m] == x);
                        assert(before.contains(x));
                    } else {
                        assert(roots@[r as int].0 == x);
                        assert(exists|i: int| 0 <= i < roots@.len() && roots@[i].0 == x);
                    }
                }
            }
            r = r + 1;
        }
        let mut marked: usize = 0;
        while work.len() > 0
            invariant
                self@ == h,
                n == self.slots@.len(),
                marks@.len() == n,
                marked == count_set(marks@),
                forall|j: int| 0 <= j < n && #[trigger] marks@[j] ==> h.contains_key(j as usize),
                forall|x: usize| rs.contains(x) && h.contains_key(x) ==> marks@[x as int] || work@.contains(x),
                forall|j: int, c: usize|
                    0 <= j < n && #[trigger] marks@[j] && #[trigger] refers_to(h[j as usize], c) && h.contains_key(c)
                        ==> marks@[c as int] || work@.contains(c),
                forall|s: Set<usize>|
                    rs.subset_of(s) && closed_under(h, s) ==> (forall|j: int|
                        0 <= j < n && #[trigger] marks@[j] ==> s.contains(j as usize)) && (forall|x: usize|
                        #[trigger] work@.contains(x) ==> s.contains(x)),
                rs == root_set(roots@),
            decreases n - marked, work@.len(),
        {
            proof {
                lemma_count_set_bound(marks@);
            }
            let ghost w0 = work@;
            let k = work.pop().unwrap();
            proof {
                assert(w0 == work@.push(k));
                assert forall|x: usize| w0.contains(x) && x != k implies work@.contains(x) by {
                    let m = choose|m: int| 0 <= m < w0.len() && w0[m] == x;
                    assert(m < work@.len());
                    assert(work@[m] == x);
                }
            }
            if k < n && self.slots[k].is_some() && !marks[k] {
                let ghost m0 = marks@;
                proof {
                    lemma_count_set_update(marks@, k as int);
                }
                marks.set(k, true);
                let ghost w1 = work@;
                self.push_children(k, &mut work);
                proof {
                    lemma_count_set_bound(marks@);
                }
                marked = marked + 1;
                proof {
                    assert(h.contains_key(k));
                    assert forall|s: Set<usize>| rs.subset_of(s) && closed_under(h, s) implies (forall|j: int|
                        0 <= j < n && #[trigger] marks@[j] ==> s.contains(j as usize)) && (forall|x: usize|
                        #[trigger] work@.contains(x) ==> s.contains(x)) by {
                        assert(w0.contains(k));
                        assert(s.contains(k));
                        assert forall|x: usize| #[trigger] work@.contains(x) implies s.contains(x) by {
                            if w1.contains(x) {
                                assert(w0.contains(x));
                            } else {
                                assert(refers_to(h[k], x));
                            }
                        }
                        assert forall|j: int| 0 <= j < n && #[trigger] marks@[j] implies s.contains(j as usize) by {
                            if j != k {
                                assert(m0[j]);
                            }
                        }
                    }
                    assert forall|x: usize| rs.contains(x) && h.contains_key(x) implies marks@[x as int] || work@.contains(x) by {
                        if x != k && !m0[x as int] {
                            assert(w0.contains(x));
                            assert(w1.contains(x));
                        }
                    }
                    assert forall|j: int, c: usize|
                        0 <= j < n && #[trigger] marks@[j] && #[trigger] refers_to(h[j as usize], c) && h.contains_key(c)
                            implies marks@[c as int] || work@.contains(c) by {
                        if j != k {
                            assert(m0[j]);
                            if !m0[c as int] && c != k {
                                assert(w0.contains(c));
                                assert(w1.contains(c));
                            }
                        }
                    }
                }
            } else {
                proof {
                    assert forall|s: Set<usize>| rs.subset_of(s) && closed_under(h, s) implies (forall|j: int|
                        0 <= j < n && #[trigger] marks@[j] ==> s.contains(j as usize)) && (forall|x: usize|
                        #[trigger] work@.contains(x) ==> s.contains(x)) by {
                        assert forall|x: usize| #[trigger] work@.contains(x) implies s.contains(x) by {
                            assert(w0.contains(x));
                        }
                    }
                    assert forall|x: usize| rs.contains(x) && h.contains_key(x) implies marks@[x as int] || work@.contains(x) by {
                        if !marks@[x as int] && x == k {
                            assert(self.slots@[k as int] is Some);
                        }
                    }
                    assert forall|j: int, c: usize|
                        0 <= j < n && #[trigger] marks@[j] && #[trigger] refers_to(h[j as usize], c) && h.contains_key(c)
                            implies marks@[c as int] || work@.contains(c) by {
                        if !marks@[c as int] && c == k {
                            assert(self.slots@[k as int] is Some);
                        }
                    }
                }
            }
        }
        proof {
            let star = Set::new(|x: usize| ((x as int) < n && marks@[x as int]) || !h.contains_key(x));
            assert(rs.subset_of(star));
            assert(closed_under(h, star)) by {
                assert forall|x: usize, c: usize| #[trigger] star.contains(x) && h.contains_key(x) && #[trigger] refers_to(h[x], c)
                    implies star.contains(c) by {
                    if h.contains_key(c) {
                        assert(marks@[x as int]);
                    }
                }
            }
            assert forall|k: usize| reachable(h, rs, k) implies (k as int) < n && marks@[k as int] by {
                assert(star.contains(k));
            }
        }
        let ghost s0 = self.slots@;
        proof {
            assert forall|x: int| 0 <= x < n implies (#[trigger] s0[x] is Some <==> h.contains_key(x as usize)) by {
                assert(self@.contains_key(x as usize) <==> s0[x] is Some);
            }
        }
        let mut j: usize = 0;
        while j < n
            invariant
                j <= n,
                n == self.slots@.len(),
                n == s0.len(),
                marks@.len() == n,
                forall|x: int| 0 <= x < j ==> #[trigger] self.slots@[x] == (if marks@[x] {
                    s0[x]
                } else {
                    None
                }),
                forall|x: int| j <= x < n ==> #[trigger] self.slots@[x] == s0[x],
            decreases n - j,
        {
            let ghost before = self.slots@;
            if !marks[j] {
                self.slots.set(j, None);
            }
            proof {
                assert forall|x: int| 0 <= x < j + 1 implies #[trigger] self.slots@[x] == (if marks@[x] {
                    s0[x]
                } else {
                    None
                }) by {
                    if x < j {
                        assert(self.slots@[x] == before[x]);
                    }
                }
                assert forall|x: int| j + 1 <= x < n implies #[trigger] self.slots@[x] == s0[x] by {
                    assert(self.slots@[x] == before[x]);
                }
            }
            j = j + 1;
        }
        proof {
            assert forall|k: usize| #[trigger] self@.contains_key(k) <==> reachable(h, rs, k) by {
                if (k as int) < n {
                    assert(self.slots@[k as int] == (if marks@[k as int] {
                        s0[k as int]
                    } else {
                        None
                    }));
                    assert(s0[k as int] is Some <==> h.contains_key(k));
                }
            }
            assert forall|k: usize| #[trigger] self@.contains_key(k) implies self@[k] == h[k] by {
                assert(self.slots@[k as int] == s0[k as int]);
                assert(h[k] == s0[k as int]->0@);
            }
        }
        let ghost swept = self@;
        while self.slots.len() > 0 && self.slots[self.slots.len() - 1].is_none()
            invariant
                self@ == swept,
                self.slots@.len() <= n,
            decreases self.slots@.len(),
        {
            let ghost before = self.slots@;
            let _ = self.slots.pop();
            proof {
                assert(self.slots@ == before.drop_last());
                assert(self@ =~= swept) by {
                    assert forall|k: usize| self@.contains_key(k) <==> swept.contains_key(k) by {
                        if (k as int) < self.slots@.len() {
                            assert(self.slots@[k as int] == before[k as int]);
                        }
                    }
                }
            }
        }
    }
}

proof fn lemma_count_none(s: Seq<bool>)
    requires
        forall|j: int| 0 <= j < s.len() ==> !s[j],
    ensures
        count_set(s) == 0,
    decreases s.len(),
{
    if s.len() > 0 {
        lemma_count_none(s.drop_last());
    }
}

} // verus!
