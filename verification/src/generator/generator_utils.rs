use vstd::prelude::*;
use crate::binding::PengBinded;
use crate::call::PengCell;
use crate::instruction::PengInstruction;
use crate::parser::ast::PengDeclaration;
use crate::position::PengPosition;
use crate::utils::{lemma_pairs_map_suffix, pairs_map, PengHeapPtr, PengNamePoolPtr};

verus! {

/// The jumps of a loop being generated that still wait for their target: those of its
/// `break`s and of its `continue`s, and where a `continue` goes if that is known yet.
pub struct PengLoopContext {
    break_jumps: Vec<usize>,
    continue_jumps: Vec<usize>,
    continue_target: Option<usize>,
}

impl PengLoopContext {
    /// The instructions of the loop's `break`s, in the order they were emitted.
    pub closed spec fn breaks(&self) -> Seq<usize> {
        self.break_jumps@
    }

    /// The instructions of the loop's `continue`s, in the order they were emitted.
    pub closed spec fn continues(&self) -> Seq<usize> {
        self.continue_jumps@
    }

    /// Where a `continue` goes, when that was known as the loop was entered.
    pub closed spec fn continue_to(&self) -> Option<usize> {
        self.continue_target
    }
}

/// An instruction that jumps, its destination set to `target`; any other instruction as
/// it is.
pub open spec fn retarget(instruction: PengInstruction, target: usize) -> PengInstruction {
    match instruction {
        PengInstruction::Jump(_) => PengInstruction::Jump(target),
        PengInstruction::JumpIfTrue(_) => PengInstruction::JumpIfTrue(target),
        PengInstruction::JumpIfFalse(_) => PengInstruction::JumpIfFalse(target),
        other => other,
    }
}

/// The code with the jump at `index` sent to `target`; the code as it is where `index`
/// lies past its end.
pub open spec fn patched(code: Seq<PengInstruction>, index: usize, target: usize) -> Seq<PengInstruction> {
    if index < code.len() {
        code.update(index as int, retarget(code[index as int], target))
    } else {
        code
    }
}

/// The code with each of the jumps at `jumps` sent to `target`, one after the other.
pub open spec fn patched_all(code: Seq<PengInstruction>, jumps: Seq<usize>, target: usize) -> Seq<PengInstruction>
    decreases jumps.len(),
{
    if jumps.len() == 0 {
        code
    } else {
        patched(patched_all(code, jumps.drop_last(), target), jumps.last(), target)
    }
}

/// Sending a list of jumps to a target sends each of them that is in the code there and
/// leaves every other instruction as it was.
pub proof fn lemma_patched_all(code: Seq<PengInstruction>, jumps: Seq<usize>, target: usize, k: usize)
    requires
        k < code.len(),
    ensures
        patched_all(code, jumps, target).len() == code.len(),
        jumps.contains(k) ==> patched_all(code, jumps, target)[k as int] == retarget(code[k as int], target),
        !jumps.contains(k) ==> patched_all(code, jumps, target)[k as int] == code[k as int],
    decreases jumps.len(),
{
    if jumps.len() > 0 {
        let rest = jumps.drop_last();
        lemma_patched_all(code, rest, target, k);
        if jumps.contains(k) && !rest.contains(k) {
            let j = choose|j: int| 0 <= j < jumps.len() && jumps[j] == k;
            if j < rest.len() {
                assert(rest[j] == k);
            }
        }
        if rest.contains(k) {
            let j = choose|j: int| 0 <= j < rest.len() && rest[j] == k;
            assert(jumps[j] == k);
        }
        if !jumps.contains(k) {
            assert(jumps[jumps.len() - 1] != k);
        }
    }
}

/// Once a loop's jumps are patched, each of its `continue`s goes to the continue target,
/// each of its other `break`s to the break target, and every other instruction is as it
/// was.
pub proof fn lemma_patched_loop(
    code: Seq<PengInstruction>,
    breaks: Seq<usize>,
    continues: Seq<usize>,
    break_target: usize,
    continue_target: usize,
    k: usize,
)
    requires
        k < code.len(),
    ensures
        ({
            let out = patched_all(patched_all(code, breaks, break_target), continues, continue_target);
            &&& out.len() == code.len()
            &&& continues.contains(k) ==> out[k as int] == retarget(code[k as int], continue_target)
            &&& !continues.contains(k) && breaks.contains(k) ==> out[k as int] == retarget(code[k as int], break_target)
            &&& !continues.contains(k) && !breaks.contains(k) ==> out[k as int] == code[k as int]
        }),
{
    lemma_patched_all(code, breaks, break_target, k);
    let mid = patched_all(code, breaks, break_target);
    lemma_patched_all(mid, continues, continue_target, k);
}

/// The globals a list of bindings binds, a later binding replacing an earlier one of the
/// same name.
pub open spec fn globals_map(s: Seq<(PengNamePoolPtr, PengBinded<PengHeapPtr>)>) -> Map<
    PengNamePoolPtr,
    PengBinded<PengHeapPtr>,
>
    decreases s.len(),
{
    if s.len() == 0 {
        Map::empty()
    } else {
        globals_map(s.drop_last()).insert(s.last().0, s.last().1)
    }
}

/// No name is bound twice.
pub open spec fn distinct_names(s: Seq<(PengNamePoolPtr, PengBinded<PengHeapPtr>)>) -> bool {
    forall|i: int, j: int| 0 <= i < j < s.len() ==> s[i].0 != s[j].0
}

proof fn lemma_distinct_drop_last(s: Seq<(PengNamePoolPtr, PengBinded<PengHeapPtr>)>)
    requires
        distinct_names(s),
        s.len() > 0,
    ensures
        distinct_names(s.drop_last()),
{
    assert forall|i: int, j: int| 0 <= i < j < s.len() - 1 implies s.drop_last()[i].0 != s.drop_last()[j].0 by {
        assert(s.drop_last()[i] == s[i] && s.drop_last()[j] == s[j]);
    }
}

proof fn lemma_globals_map_at(s: Seq<(PengNamePoolPtr, PengBinded<PengHeapPtr>)>, i: int)
    requires
        distinct_names(s),
        0 <= i < s.len(),
    ensures
        globals_map(s).contains_key(s[i].0),
        globals_map(s)[s[i].0] == s[i].1,
    decreases s.len(),
{
    if i < s.len() - 1 {
        lemma_distinct_drop_last(s);
        lemma_globals_map_at(s.drop_last(), i);
        assert(s.drop_last()[i] == s[i]);
        assert(s[i].0 != s[s.len() - 1].0);
    }
}

proof fn lemma_globals_map_absent(s: Seq<(PengNamePoolPtr, PengBinded<PengHeapPtr>)>, k: PengNamePoolPtr)
    requires
        forall|j: int| 0 <= j < s.len() ==> s[j].0 != k,
    ensures
        !globals_map(s).contains_key(k),
    decreases s.len(),
{
    if s.len() > 0 {
        assert(s[s.len() - 1].0 != k);
        assert forall|j: int| 0 <= j < s.len() - 1 implies s.drop_last()[j].0 != k by {
            assert(s.drop_last()[j] == s[j]);
        }
        lemma_globals_map_absent(s.drop_last(), k);
    }
}

proof fn lemma_globals_map_update(
    s: Seq<(PengNamePoolPtr, PengBinded<PengHeapPtr>)>,
    i: int,
    v: PengBinded<PengHeapPtr>,
)
    requires
        distinct_names(s),
        0 <= i < s.len(),
    ensures
        distinct_names(s.update(i, (s[i].0, v))),
        globals_map(s.update(i, (s[i].0, v))) == globals_map(s).insert(s[i].0, v),
    decreases s.len(),
{
    let t = s.update(i, (s[i].0, v));
    assert forall|a: int, b: int| 0 <= a < b < t.len() implies t[a].0 != t[b].0 by {
        assert(t[a].0 == s[a].0 && t[b].0 == s[b].0);
    }
    if i == s.len() - 1 {
        assert(t.drop_last() =~= s.drop_last());
        assert(globals_map(t) =~= globals_map(s).insert(s[i].0, v));
    } else {
        lemma_distinct_drop_last(s);
        assert(t.drop_last() =~= s.drop_last().update(i, (s[i].0, v)));
        assert(s.drop_last()[i] == s[i]);
        lemma_globals_map_update(s.drop_last(), i, v);
        assert(s[s.len() - 1].0 != s[i].0);
        assert(globals_map(t) =~= globals_map(s).insert(s[i].0, v));
    }
}

/// Where a name is bound in nested scopes: the innermost scope that binds it decides.
pub open spec fn local_lookup(scopes: Seq<Map<Seq<char>, usize>>, name: Seq<char>) -> Option<usize>
    decreases scopes.len(),
{
    if scopes.len() == 0 {
        None
    } else if scopes.last().contains_key(name) {
        Some(scopes.last()[name])
    } else {
        local_lookup(scopes.drop_last(), name)
    }
}


/// What the generator keeps while it writes the code of one function or initializer: the
/// instructions with where each came from, the globals it defines and those it may use,
/// the nested scopes of local names, how many locals it has handed out, and the loops it
/// is inside of.
pub struct PengGeneratorContext {
    pub bytecode: Vec<PengInstruction>,
    pub positions: Vec<PengPosition>,
    globals: Vec<(PengNamePoolPtr, PengBinded<PengHeapPtr>)>,
    using_globals: Vec<(PengNamePoolPtr, PengBinded<PengHeapPtr>)>,
    scopes: Vec<Vec<(String, usize)>>,
    next_local: usize,
    loops: Vec<PengLoopContext>,
    consts: Vec<PengCell>,
}

fn copy_binded(b: &PengBinded<PengHeapPtr>) -> (res: PengBinded<PengHeapPtr>)
    ensures
        res == *b,
{
    match b {
        PengBinded::Mutable(p) => PengBinded::Mutable(*p),
        PengBinded::Immutable(p) => PengBinded::Immutable(*p),
    }
}

fn copy_bindings(s: &Vec<(PengNamePoolPtr, PengBinded<PengHeapPtr>)>) -> (res: Vec<
    (PengNamePoolPtr, PengBinded<PengHeapPtr>),
>)
    ensures
        res@ == s@,
{
    let mut res: Vec<(PengNamePoolPtr, PengBinded<PengHeapPtr>)> = Vec::new();
    let mut i: usize = 0;
    while i < s.len()
        invariant
            i <= s@.len(),
            res@ == s@.take(i as int),
        decreases s@.len() - i,
    {
        let (name, value) = &s[i];
        res.push((*name, copy_binded(value)));
        assert(res@ =~= s@.take(i + 1));
        i = i + 1;
    }
    assert(s@.take(i as int) =~= s@);
    res
}

/// Binds `name` to `value` in a list of bindings where no name is bound twice: in place
/// where the name is bound, at the end where it is not.
fn bind_global(
    s: &mut Vec<(PengNamePoolPtr, PengBinded<PengHeapPtr>)>,
    name: PengNamePoolPtr,
    value: PengBinded<PengHeapPtr>,
)
    requires
        distinct_names(old(s)@),
    ensures
        distinct_names(final(s)@),
        globals_map(final(s)@) == globals_map(old(s)@).insert(name, value),
{
    let mut i: usize = 0;
    while i < s.len()
        invariant
            i <= s@.len(),
            s@ == old(s)@,
            distinct_names(s@),
            forall|j: int| 0 <= j < i ==> s@[j].0 != name,
        decreases s@.len() - i,
    {
        if s[i].0 == name {
            proof {
                lemma_globals_map_update(s@, i as int, value);
            }
            s.set(i, (name, value));
            return;
        }
        i = i + 1;
    }
    proof {
        assert forall|a: int, b: int| 0 <= a < b < s@.len() + 1 implies s@.push((name, value))[a].0 != s@.push(
            (name, value),
        )[b].0 by {
            assert(s@.push((name, value))[a] == s@[a]);
        }
        assert(s@.push((name, value)).drop_last() =~= s@);
    }
    s.push((name, value));
}

/// Where `name` is bound in a list of bindings where no name is bound twice.
fn find_global(s: &Vec<(PengNamePoolPtr, PengBinded<PengHeapPtr>)>, name: PengNamePoolPtr) -> (res: Option<
    &PengBinded<PengHeapPtr>,
>)
    requires
        distinct_names(s@),
    ensures
        res is Some <==> globals_map(s@).contains_key(name),
        res matches Some(r) ==> *r == globals_map(s@)[name],
{
    let mut i: usize = 0;
    while i < s.len()
        invariant
            i <= s@.len(),
            distinct_names(s@),
            forall|j: int| 0 <= j < i ==> s@[j].0 != name,
        decreases s@.len() - i,
    {
        if s[i].0 == name {
            proof {
                lemma_globals_map_at(s@, i as int);
            }
            return Some(&s[i].1);
        }
        i = i + 1;
    }
    proof {
        lemma_globals_map_absent(s@, name);
    }
    None
}

impl PengGeneratorContext {
    /// There is always a scope, and no global is bound twice.
    pub closed spec fn wf(&self) -> bool {
        &&& self.scopes@.len() >= 1
        &&& distinct_names(self.globals@)
        &&& distinct_names(self.using_globals@)
        &&& forall|j: int| 0 <= j < self.consts@.len() ==> !(#[trigger] self.consts@[j] is Float32) && !(
            self.consts@[j] is Float64)
    }

    /// The instructions written so far.
    pub closed spec fn code(&self) -> Seq<PengInstruction> {
        self.bytecode@
    }

    /// Where each instruction written so far came from.
    pub closed spec fn code_positions(&self) -> Seq<PengPosition> {
        self.positions@
    }

    /// The globals this code defines.
    pub closed spec fn own_globals(&self) -> Map<PengNamePoolPtr, PengBinded<PengHeapPtr>> {
        globals_map(self.globals@)
    }

    /// The globals this code may use from elsewhere.
    pub closed spec fn used_globals(&self) -> Map<PengNamePoolPtr, PengBinded<PengHeapPtr>> {
        globals_map(self.using_globals@)
    }

    /// The scopes of local names, outermost first, each mapping a name to its local.
    pub closed spec fn local_scopes(&self) -> Seq<Map<Seq<char>, usize>> {
        Seq::new(self.scopes@.len(), |i: int| pairs_map(self.scopes@[i]@))
    }

    /// How many locals have been handed out; the next one gets this number.
    pub closed spec fn locals_count(&self) -> usize {
        self.next_local
    }

    /// The constants the code pushes, by their index.
    pub closed spec fn const_pool(&self) -> Seq<PengCell> {
        self.consts@
    }

    /// The loops being generated, outermost first.
    pub closed spec fn open_loops(&self) -> Seq<PengLoopContext> {
        self.loops@
    }

    /// Everything but the code and the loops is as in `other`.
    pub open spec fn same_names(&self, other: &Self) -> bool {
        &&& self.own_globals() == other.own_globals()
        &&& self.used_globals() == other.used_globals()
        &&& self.local_scopes() == other.local_scopes()
        &&& self.locals_count() == other.locals_count()
    }

    /// Only the code may differ from `other`.
    pub open spec fn same_state(&self, other: &Self) -> bool {
        &&& self.same_names(other)
        &&& self.open_loops() == other.open_loops()
        &&& self.const_pool() == other.const_pool()
    }

    pub fn new() -> (res: Self)
        ensures
            res.wf(),
            res.code() == Seq::<PengInstruction>::empty(),
            res.code_positions() == Seq::<PengPosition>::empty(),
            res.own_globals() == Map::<PengNamePoolPtr, PengBinded<PengHeapPtr>>::empty(),
            res.used_globals() == Map::<PengNamePoolPtr, PengBinded<PengHeapPtr>>::empty(),
            res.local_scopes() == seq![Map::<Seq<char>, usize>::empty()],
            res.locals_count() == 0,
            res.open_loops() == Seq::<PengLoopContext>::empty(),
            res.const_pool() == Seq::<PengCell>::empty(),
    {
        let mut scopes: Vec<Vec<(String, usize)>> = Vec::new();
        scopes.push(Vec::new());
        let res = Self {
            bytecode: Vec::new(),
            positions: Vec::new(),
            globals: Vec::new(),
            using_globals: Vec::new(),
            scopes,
            next_local: 0,
            loops: Vec::new(),
            consts: Vec::new(),
        };
        assert(res.local_scopes() =~= seq![Map::<Seq<char>, usize>::empty()]);
        res
    }

    /// A fresh context for the code of a nested function: it sees the same globals, and
    /// nothing else carries over.
    pub fn new_child_context(&self) -> (res: Self)
        requires
            self.wf(),
        ensures
            res.wf(),
            res.code() == Seq::<PengInstruction>::empty(),
            res.code_positions() == Seq::<PengPosition>::empty(),
            res.own_globals() == self.own_globals(),
            res.used_globals() == self.used_globals(),
            res.local_scopes() == seq![Map::<Seq<char>, usize>::empty()],
            res.locals_count() == 0,
            res.open_loops() == Seq::<PengLoopContext>::empty(),
            res.const_pool() == Seq::<PengCell>::empty(),
    {
        let mut scopes: Vec<Vec<(String, usize)>> = Vec::new();
        scopes.push(Vec::new());
        let res = Self {
            bytecode: Vec::new(),
            positions: Vec::new(),
            globals: copy_bindings(&self.globals),
            using_globals: copy_bindings(&self.using_globals),
            scopes,
            next_local: 0,
            loops: Vec::new(),
            consts: Vec::new(),
        };
        assert(res.local_scopes() =~= seq![Map::<Seq<char>, usize>::empty()]);
        res
    }

    /// How many instructions have been written.
    pub fn bytecode_len(&self) -> (res: usize)
        ensures
            res == self.code().len(),
    {
        self.bytecode.len()
    }

    /// Appends an instruction and where it came from.
    pub fn push_positioned_instruction(&mut self, instr: PengInstruction, pos: PengPosition)
        requires
            old(self).wf(),
        ensures
            final(self).wf(),
            final(self).code() == old(self).code().push(instr),
            final(self).code_positions() == old(self).code_positions().push(pos),
            final(self).same_state(&*old(self)),
    {
        self.bytecode.push(instr);
        self.positions.push(pos);
    }

    /// The globals this code defines, each name once.
    pub fn into_globals(self) -> (res: Vec<(PengNamePoolPtr, PengBinded<PengHeapPtr>)>)
        requires
            self.wf(),
        ensures
            distinct_names(res@),
            globals_map(res@) == self.own_globals(),
    {
        self.globals
    }

    /// The globals this code defines, each name once.
    pub fn globals(&self) -> (res: &Vec<(PengNamePoolPtr, PengBinded<PengHeapPtr>)>)
        requires
            self.wf(),
        ensures
            distinct_names(res@),
            globals_map(res@) == self.own_globals(),
    {
        &self.globals
    }

    /// Defines a global, replacing what the name was bound to.
    pub fn insert_global(&mut self, name: PengNamePoolPtr, value: PengBinded<PengHeapPtr>)
        requires
            old(self).wf(),
        ensures
            final(self).wf(),
            final(self).own_globals() == old(self).own_globals().insert(name, value),
            final(self).used_globals() == old(self).used_globals(),
            final(self).local_scopes() == old(self).local_scopes(),
            final(self).locals_count() == old(self).locals_count(),
            final(self).open_loops() == old(self).open_loops(),
            final(self).code() == old(self).code(),
            final(self).code_positions() == old(self).code_positions(),
    {
        bind_global(&mut self.globals, name, value);
    }

    /// Makes a global of elsewhere usable, replacing what the name was bound to.
    pub fn use_global(&mut self, name: PengNamePoolPtr, value: PengBinded<PengHeapPtr>)
        requires
            old(self).wf(),
        ensures
            final(self).wf(),
            final(self).used_globals() == old(self).used_globals().insert(name, value),
            final(self).own_globals() == old(self).own_globals(),
            final(self).local_scopes() == old(self).local_scopes(),
            final(self).locals_count() == old(self).locals_count(),
            final(self).open_loops() == old(self).open_loops(),
            final(self).code() == old(self).code(),
            final(self).code_positions() == old(self).code_positions(),
    {
        bind_global(&mut self.using_globals, name, value);
    }

    /// What a global name is bound to: its own globals first, then those it uses.
    pub fn get_global(&self, name: PengNamePoolPtr) -> (res: Option<&PengBinded<PengHeapPtr>>)
        requires
            self.wf(),
        ensures
            res is Some <==> (self.own_globals().contains_key(name) || self.used_globals().contains_key(name)),
            res matches Some(r) ==> *r == (if self.own_globals().contains_key(name) {
                self.own_globals()[name]
            } else {
                self.used_globals()[name]
            }),
    {
        match find_global(&self.globals, name) {
            Some(value) => Some(value),
            None => find_global(&self.using_globals, name),
        }
    }

    /// What a global name is bound to among the globals this code defines.
    pub fn get_own_global(&self, name: PengNamePoolPtr) -> (res: Option<&PengBinded<PengHeapPtr>>)
        requires
            self.wf(),
        ensures
            res is Some <==> self.own_globals().contains_key(name),
            res matches Some(r) ==> *r == self.own_globals()[name],
    {
        find_global(&self.globals, name)
    }
}


impl PengGeneratorContext {
    /// Hands out the next local and binds `name` to it in the innermost scope.
    pub fn create_local(&mut self, name: String) -> (res: usize)
        requires
            old(self).wf(),
            old(self).locals_count() < usize::MAX,
        ensures
            final(self).wf(),
            res == old(self).locals_count(),
            final(self).locals_count() == old(self).locals_count() + 1,
            final(self).local_scopes() == old(self).local_scopes().update(
                old(self).local_scopes().len() - 1,
                old(self).local_scopes().last().insert(name@, res),
            ),
            final(self).own_globals() == old(self).own_globals(),
            final(self).used_globals() == old(self).used_globals(),
            final(self).open_loops() == old(self).open_loops(),
            final(self).code() == old(self).code(),
            final(self).code_positions() == old(self).code_positions(),
    {
        let local = self.next_local;
        self.next_local = self.next_local + 1;
        self.insert_local(name, local);
        local
    }

    /// Hands out the next local, with no name.
    pub fn create_temporary_local(&mut self) -> (res: usize)
        requires
            old(self).wf(),
            old(self).locals_count() < usize::MAX,
        ensures
            final(self).wf(),
            res == old(self).locals_count(),
            final(self).locals_count() == old(self).locals_count() + 1,
            final(self).const_pool() == old(self).const_pool(),
            final(self).local_scopes() == old(self).local_scopes(),
            final(self).own_globals() == old(self).own_globals(),
            final(self).used_globals() == old(self).used_globals(),
            final(self).open_loops() == old(self).open_loops(),
            final(self).code() == old(self).code(),
            final(self).code_positions() == old(self).code_positions(),
    {
        let local = self.next_local;
        self.next_local = self.next_local + 1;
        local
    }

    /// Binds `name` to a local in the innermost scope.
    pub fn insert_local(&mut self, name: String, local: usize)
        requires
            old(self).wf(),
        ensures
            final(self).wf(),
            final(self).local_scopes() == old(self).local_scopes().update(
                old(self).local_scopes().len() - 1,
                old(self).local_scopes().last().insert(name@, local),
            ),
            final(self).locals_count() == old(self).locals_count(),
            final(self).own_globals() == old(self).own_globals(),
            final(self).used_globals() == old(self).used_globals(),
            final(self).open_loops() == old(self).open_loops(),
            final(self).code() == old(self).code(),
            final(self).code_positions() == old(self).code_positions(),
    {
        let n = self.scopes.len();
        let ghost f0 = self.scopes@[n - 1]@;
        self.scopes[n - 1].push((name, local));
        proof {
            let f1 = self.scopes@[n - 1]@;
            assert(f1.drop_last() =~= f0);
            assert(self.local_scopes() =~= old(self).local_scopes().update(
                old(self).local_scopes().len() - 1,
                old(self).local_scopes().last().insert(name@, local),
            ));
        }
    }

    /// Enters a new, empty scope.
    pub fn push_scope(&mut self)
        requires
            old(self).wf(),
        ensures
            final(self).wf(),
            final(self).local_scopes() == old(self).local_scopes().push(Map::empty()),
            final(self).locals_count() == old(self).locals_count(),
            final(self).own_globals() == old(self).own_globals(),
            final(self).used_globals() == old(self).used_globals(),
            final(self).open_loops() == old(self).open_loops(),
            final(self).code() == old(self).code(),
            final(self).code_positions() == old(self).code_positions(),
    {
        self.scopes.push(Vec::new());
        assert(self.local_scopes() =~= old(self).local_scopes().push(Map::empty()));
    }

    /// Leaves the innermost scope; the outermost one is never left.
    pub fn pop_scope(&mut self)
        requires
            old(self).wf(),
        ensures
            final(self).wf(),
            final(self).local_scopes() == if old(self).local_scopes().len() > 1 {
                old(self).local_scopes().drop_last()
            } else {
                old(self).local_scopes()
            },
            final(self).locals_count() == old(self).locals_count(),
            final(self).own_globals() == old(self).own_globals(),
            final(self).used_globals() == old(self).used_globals(),
            final(self).open_loops() == old(self).open_loops(),
            final(self).code() == old(self).code(),
            final(self).code_positions() == old(self).code_positions(),
    {
        if self.scopes.len() > 1 {
            self.scopes.pop();
            assert(self.local_scopes() =~= old(self).local_scopes().drop_last());
        }
    }

    /// The local a name is bound to, in the innermost scope that binds it.
    pub fn get_local(&self, name: &str) -> (res: Option<usize>)
        requires
            self.wf(),
        ensures
            res == local_lookup(self.local_scopes(), name@),
    {
        let owned = name.to_owned();
        let mut i: usize = self.scopes.len();
        assert(self.local_scopes().take(i as int) =~= self.local_scopes());
        while i > 0
            invariant
                i <= self.scopes@.len(),
                owned@ == name@,
                local_lookup(self.local_scopes(), name@) == local_lookup(self.local_scopes().take(i as int), name@),
            decreases i,
        {
            let scope = &self.scopes[i - 1];
            let ghost t = self.local_scopes().take(i as int);
            proof {
                assert(t.drop_last() =~= self.local_scopes().take(i - 1));
                assert(t.last() == pairs_map(scope@));
            }
            let mut j: usize = scope.len();
            while j > 0
                invariant
                    0 < i <= self.scopes@.len(),
                    owned@ == name@,
                    *scope == self.scopes@[i - 1],
                    t.len() > 0,
                    t.last() == pairs_map(scope@),
                    local_lookup(self.local_scopes(), name@) == local_lookup(t, name@),
                    j <= scope@.len(),
                    forall|k: int| j <= k < scope@.len() ==> (#[trigger] scope@[k]).0@ != name@,
                decreases j,
            {
                if scope[j - 1].0 == owned {
                    proof {
                        lemma_pairs_map_suffix(scope@, j as int, name@);
                        assert(scope@.take(j as int).drop_last() =~= scope@.take(j - 1));
                        assert(scope@.take(j as int).last() == scope@[j - 1]);
                        assert(pairs_map(scope@).contains_key(name@));
                        assert(t.last().contains_key(name@));
                        assert(local_lookup(t, name@) == Some(scope@[j - 1].1));
                    }
                    return Some(scope[j - 1].1);
                }
                j = j - 1;
            }
            proof {
                lemma_pairs_map_suffix(scope@, 0, name@);
                assert(scope@.take(0) =~= Seq::<(String, usize)>::empty());
            }
            i = i - 1;
        }
        None
    }
}


impl PengGeneratorContext {
    /// Appends a jump whose destination is patched later, and gives its place.
    pub fn emit_jump(&mut self, pos: PengPosition) -> (res: usize)
        requires
            old(self).wf(),
        ensures
            final(self).wf(),
            res == old(self).code().len(),
            final(self).code() == old(self).code().push(PengInstruction::Jump(0)),
            final(self).code_positions() == old(self).code_positions().push(pos),
            final(self).same_state(&*old(self)),
    {
        let instruction_index = self.bytecode.len();
        self.push_positioned_instruction(PengInstruction::Jump(0), pos);
        instruction_index
    }

    /// Appends a jump taken when the value on the stack is false, whose destination is
    /// patched later, and gives its place.
    pub fn emit_jump_if_false(&mut self, pos: PengPosition) -> (res: usize)
        requires
            old(self).wf(),
        ensures
            final(self).wf(),
            res == old(self).code().len(),
            final(self).code() == old(self).code().push(PengInstruction::JumpIfFalse(0)),
            final(self).code_positions() == old(self).code_positions().push(pos),
            final(self).same_state(&*old(self)),
    {
        let instruction_index = self.bytecode.len();
        self.push_positioned_instruction(PengInstruction::JumpIfFalse(0), pos);
        instruction_index
    }

    /// Sends the jump at `instruction_index` to `target`; an instruction that does not
    /// jump, or a place past the end, is left alone.
    pub fn patch_jump(&mut self, instruction_index: usize, target: usize)
        requires
            old(self).wf(),
        ensures
            final(self).wf(),
            final(self).code() == patched(old(self).code(), instruction_index, target),
            final(self).code_positions() == old(self).code_positions(),
            final(self).same_state(&*old(self)),
    {
        if instruction_index < self.bytecode.len() {
            let patched_instruction = match self.bytecode[instruction_index] {
                PengInstruction::Jump(_) => PengInstruction::Jump(target),
                PengInstruction::JumpIfTrue(_) => PengInstruction::JumpIfTrue(target),
                PengInstruction::JumpIfFalse(_) => PengInstruction::JumpIfFalse(target),
                other => other,
            };
            self.bytecode.set(instruction_index, patched_instruction);
        }
    }

    /// Enters a loop, with where its `continue`s go when that is known already.
    pub fn push_loop(&mut self, continue_target: Option<usize>)
        requires
            old(self).wf(),
        ensures
            final(self).wf(),
            final(self).open_loops().len() == old(self).open_loops().len() + 1,
            final(self).open_loops().drop_last() == old(self).open_loops(),
            final(self).open_loops().last().breaks() == Seq::<usize>::empty(),
            final(self).open_loops().last().continues() == Seq::<usize>::empty(),
            final(self).open_loops().last().continue_to() == continue_target,
            final(self).same_names(&*old(self)),
            final(self).code() == old(self).code(),
            final(self).code_positions() == old(self).code_positions(),
    {
        self.loops.push(PengLoopContext { break_jumps: Vec::new(), continue_jumps: Vec::new(), continue_target });
        assert(self.loops@.drop_last() =~= old(self).loops@);
    }

    /// Leaves the innermost loop and hands back its pending jumps; `None` outside any loop.
    pub fn pop_loop(&mut self) -> (res: Option<PengLoopContext>)
        requires
            old(self).wf(),
        ensures
            final(self).wf(),
            res == (if old(self).open_loops().len() == 0 {
                None
            } else {
                Some(old(self).open_loops().last())
            }),
            final(self).open_loops() == (if old(self).open_loops().len() == 0 {
                old(self).open_loops()
            } else {
                old(self).open_loops().drop_last()
            }),
            final(self).same_names(&*old(self)),
            final(self).code() == old(self).code(),
            final(self).code_positions() == old(self).code_positions(),
    {
        self.loops.pop()
    }

    /// Inside a loop, appends a jump to the loop's end and records it with the loop;
    /// outside any loop, does nothing and says so.
    pub fn emit_break(&mut self, pos: PengPosition) -> (res: bool)
        requires
            old(self).wf(),
        ensures
            final(self).wf(),
            res == (old(self).open_loops().len() > 0),
            !res ==> final(self).code() == old(self).code() && final(self).code_positions() == old(
                self,
            ).code_positions() && final(self).same_state(&*old(self)),
            res ==> {
                &&& final(self).code() == old(self).code().push(PengInstruction::Jump(0))
                &&& final(self).code_positions() == old(self).code_positions().push(pos)
                &&& final(self).same_names(&*old(self))
                &&& final(self).open_loops().len() == old(self).open_loops().len()
                &&& final(self).open_loops().drop_last() == old(self).open_loops().drop_last()
                &&& final(self).open_loops().last().breaks() == old(self).open_loops().last().breaks().push(
                    old(self).code().len() as usize,
                )
                &&& final(self).open_loops().last().continues() == old(self).open_loops().last().continues()
                &&& final(self).open_loops().last().continue_to() == old(self).open_loops().last().continue_to()
            },
    {
        if self.loops.len() == 0 {
            return false;
        }
        let jump = self.emit_jump(pos);
        match self.loops.pop() {
            Some(mut loop_context) => {
                loop_context.break_jumps.push(jump);
                self.loops.push(loop_context);
                assert(self.loops@.drop_last() =~= old(self).loops@.drop_last());
                true
            },
            None => false,
        }
    }

    /// Inside a loop, appends a jump to where the loop goes on and records it with the
    /// loop; outside any loop, does nothing and says so.
    pub fn emit_continue(&mut self, pos: PengPosition) -> (res: bool)
        requires
            old(self).wf(),
        ensures
            final(self).wf(),
            res == (old(self).open_loops().len() > 0),
            !res ==> final(self).code() == old(self).code() && final(self).code_positions() == old(
                self,
            ).code_positions() && final(self).same_state(&*old(self)),
            res ==> {
                &&& final(self).code() == old(self).code().push(PengInstruction::Jump(0))
                &&& final(self).code_positions() == old(self).code_positions().push(pos)
                &&& final(self).same_names(&*old(self))
                &&& final(self).open_loops().len() == old(self).open_loops().len()
                &&& final(self).open_loops().drop_last() == old(self).open_loops().drop_last()
                &&& final(self).open_loops().last().continues() == old(self).open_loops().last().continues().push(
                    old(self).code().len() as usize,
                )
                &&& final(self).open_loops().last().breaks() == old(self).open_loops().last().breaks()
                &&& final(self).open_loops().last().continue_to() == old(self).open_loops().last().continue_to()
            },
    {
        if self.loops.len() == 0 {
            return false;
        }
        let jump = self.emit_jump(pos);
        match self.loops.pop() {
            Some(mut loop_context) => {
                loop_context.continue_jumps.push(jump);
                self.loops.push(loop_context);
                assert(self.loops@.drop_last() =~= old(self).loops@.drop_last());
                true
            },
            None => false,
        }
    }

    /// Sends a finished loop's `break`s to `break_target` and then its `continue`s to its
    /// continue target, or to `fallback_continue_target` where it had none.
    pub fn patch_loop(&mut self, loop_context: PengLoopContext, break_target: usize, fallback_continue_target: usize)
        requires
            old(self).wf(),
        ensures
            final(self).wf(),
            final(self).code() == patched_all(
                patched_all(old(self).code(), loop_context.breaks(), break_target),
                loop_context.continues(),
                match loop_context.continue_to() {
                    Some(t) => t,
                    None => fallback_continue_target,
                },
            ),
            final(self).code_positions() == old(self).code_positions(),
            final(self).same_state(&*old(self)),
    {
        let breaks = &loop_context.break_jumps;
        let mut i: usize = 0;
        assert(breaks@.take(0) =~= Seq::<usize>::empty());
        while i < breaks.len()
            invariant
                self.wf(),
                i <= breaks@.len(),
                self.code() == patched_all(old(self).code(), breaks@.take(i as int), break_target),
                self.code_positions() == old(self).code_positions(),
                self.same_state(&*old(self)),
            decreases breaks@.len() - i,
        {
            self.patch_jump(breaks[i], break_target);
            assert(breaks@.take(i + 1).drop_last() =~= breaks@.take(i as int));
            i = i + 1;
        }
        assert(breaks@.take(i as int) =~= breaks@);
        let continue_target = match loop_context.continue_target {
            Some(target) => target,
            None => fallback_continue_target,
        };
        let ghost mid = self.code();
        let continues = &loop_context.continue_jumps;
        let mut i: usize = 0;
        assert(continues@.take(0) =~= Seq::<usize>::empty());
        while i < continues.len()
            invariant
                self.wf(),
                i <= continues@.len(),
                self.code() == patched_all(mid, continues@.take(i as int), continue_target),
                self.code_positions() == old(self).code_positions(),
                self.same_state(&*old(self)),
            decreases continues@.len() - i,
        {
            self.patch_jump(continues[i], continue_target);
            assert(continues@.take(i + 1).drop_last() =~= continues@.take(i as int));
            i = i + 1;
        }
        assert(continues@.take(i as int) =~= continues@);
    }
}

/// Where a cell equal to `c` first stands among the constants at or after `i`.
pub open spec fn first_const(pool: Seq<PengCell>, c: PengCell, i: int) -> Option<int>
    decreases pool.len() - i,
{
    if i < 0 || i >= pool.len() {
        None
    } else if crate::cell::cells_equal(pool[i], c) {
        Some(i)
    } else {
        first_const(pool, c, i + 1)
    }
}

/// The index a constant gets: that of the first equal one, or the end when it is new.
pub open spec fn const_index(pool: Seq<PengCell>, c: PengCell) -> usize {
    match first_const(pool, c, 0) {
        Some(i) => i as usize,
        None => pool.len() as usize,
    }
}

/// The constants once `c` is among them.
pub open spec fn const_pooled(pool: Seq<PengCell>, c: PengCell) -> Seq<PengCell> {
    match first_const(pool, c, 0) {
        Some(_) => pool,
        None => pool.push(c),
    }
}

impl PengGeneratorContext {
    /// Pushes the constant `value`, reusing an equal one already in the pool.
    pub fn push_const_and_const_instruction(&mut self, value: PengCell, pos: PengPosition)
        requires
            old(self).wf(),
            !(value is Float32),
            !(value is Float64),
            old(self).const_pool().len() < usize::MAX,
        ensures
            final(self).wf(),
            final(self).code() == old(self).code().push(PengInstruction::PushConst(const_index(old(self).const_pool(), value))),
            final(self).code_positions() == old(self).code_positions().push(pos),
            final(self).const_pool() == const_pooled(old(self).const_pool(), value),
            final(self).same_names(&*old(self)),
            final(self).open_loops() == old(self).open_loops(),
    {
        let mut i: usize = 0;
        let mut found: Option<usize> = None;
        while i < self.consts.len() && found.is_none()
            invariant
                i <= self.consts@.len(),
                self.consts@ == old(self).consts@,
                self.wf(),
                found is None ==> first_const(self.consts@, value, 0) == first_const(self.consts@, value, i as int),
                found matches Some(j) ==> first_const(self.consts@, value, 0) == Some(j as int) && j < self.consts@.len(),
                !(value is Float32),
                !(value is Float64),
            decreases self.consts@.len() - i, if found is None { 1int } else { 0int },
        {
            assert(!(self.consts@[i as int] is Float32) && !(self.consts@[i as int] is Float64));
            if self.consts[i].equals(&value) {
                found = Some(i);
            } else {
                i = i + 1;
            }
        }
        let index = match found {
            Some(index) => index,
            None => {
                let index = self.consts.len();
                let ghost c0 = self.consts@;
                self.consts.push(value);
                proof {
                    assert(self.consts@ == c0.push(value));
                    assert forall|j: int| 0 <= j < self.consts@.len() implies !(#[trigger] self.consts@[j] is Float32) && !(
                        self.consts@[j] is Float64) by {
                        if j < c0.len() {
                            assert(self.consts@[j] == c0[j]);
                        }
                    }
                }
                index
            },
        };
        self.bytecode.push(PengInstruction::PushConst(index));
        self.positions.push(pos);
    }
}

impl PengGeneratorContext {
    /// The constants the code pushes, by their index.
    pub fn consts(&self) -> (res: &Vec<PengCell>)
        ensures
            res@ == self.const_pool(),
    {
        &self.consts
    }
}

impl PengGeneratorContext {
    /// Hands out a new temporary local and reserves it in the code.
    pub fn generate_reserved_temporary_local(&mut self, pos: PengPosition) -> (res: usize)
        requires
            old(self).wf(),
            old(self).locals_count() < usize::MAX,
        ensures
            final(self).wf(),
            res == old(self).locals_count(),
            final(self).locals_count() == old(self).locals_count() + 1,
            final(self).code() == old(self).code().push(PengInstruction::ReserveLocal(res)),
            final(self).code_positions() == old(self).code_positions().push(pos),
            final(self).local_scopes() == old(self).local_scopes(),
            final(self).own_globals() == old(self).own_globals(),
            final(self).used_globals() == old(self).used_globals(),
            final(self).open_loops() == old(self).open_loops(),
            final(self).const_pool() == old(self).const_pool(),
    {
        let local = self.create_temporary_local();
        self.push_positioned_instruction(PengInstruction::ReserveLocal(local), pos);
        local
    }
}

/// Where a declaration was written.
pub open spec fn declaration_position_spec(d: PengDeclaration) -> PengPosition {
    match d {
        PengDeclaration::Var(v) => v.position,
        PengDeclaration::As(v) => v.position,
        PengDeclaration::Function(v) => v.position,
        PengDeclaration::Type(v) => v.position,
        PengDeclaration::Module(v) => v.position,
        PengDeclaration::Operation(v) => v.position,
    }
}

pub fn declaration_position(declaration: &PengDeclaration) -> (res: PengPosition)
    ensures
        res == declaration_position_spec(*declaration),
{
    match declaration {
        PengDeclaration::Var(d) => d.position,
        PengDeclaration::As(d) => d.position,
        PengDeclaration::Function(d) => d.position,
        PengDeclaration::Type(d) => d.position,
        PengDeclaration::Module(d) => d.position,
        PengDeclaration::Operation(d) => d.position,
    }
}

} // verus!
