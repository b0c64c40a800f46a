use vstd::prelude::*;
use vstd::string::StringExecFns;
use crate::binding::PengBinded;
use crate::error::PengError;
use crate::optimizer::constant_folding::{literal_expression_spec, literal_of};
use crate::parser::ast::{
    PengAssignStatement, PengBindedDeclaration, PengDeclaration, PengExpression, PengLiteral,
    PengPositionedExpression,
};
use crate::positioned::PengPositioned;
use crate::utils::{lemma_pairs_map_suffix, pairs_map};

verus! {

/// What a scope knows of a name: the literal it stands for, or that it must not be
/// replaced.
pub enum PengConstantPropagationEntry {
    Value(PengLiteral),
    Blocked,
}

/// The literals that can stand in for a name: nil, numbers, booleans and strings.
pub open spec fn propagable_literal(l: PengLiteral) -> bool {
    match l {
        PengLiteral::Nil | PengLiteral::Int(_) | PengLiteral::Uint(_) | PengLiteral::Byte(_)
        | PengLiteral::Float32(_) | PengLiteral::Float64(_) | PengLiteral::Bool(_)
        | PengLiteral::String(_) => true,
        _ => false,
    }
}

pub open spec fn propagable_expression(e: PengPositionedExpression) -> bool {
    match literal_of(e) {
        Some(l) => propagable_literal(l),
        None => false,
    }
}

/// What a name stands for in a stack of frames: the innermost frame that binds it
/// decides.
pub open spec fn lookup_spec(frames: Seq<Map<Seq<char>, PengConstantPropagationEntry>>, name: Seq<char>) -> Option<
    PengLiteral,
>
    decreases frames.len(),
{
    if frames.len() == 0 {
        None
    } else if frames.last().contains_key(name) {
        match frames.last()[name] {
            PengConstantPropagationEntry::Value(l) => Some(l),
            PengConstantPropagationEntry::Blocked => None,
        }
    } else {
        lookup_spec(frames.drop_last(), name)
    }
}

/// The name a declaration introduces.
pub open spec fn declaration_name(d: PengDeclaration) -> Seq<char> {
    match d {
        PengDeclaration::Var(v) => v.value.name.value@,
        PengDeclaration::As(v) => v.value.name.value@,
        PengDeclaration::Function(v) => v.value.name.value@,
        PengDeclaration::Type(v) => v.value.name.value@,
        PengDeclaration::Module(v) => v.value.name.value@,
        PengDeclaration::Operation(v) => v.value.name.value@,
    }
}

/// What a declaration makes its name stand for: an immutable variable or alias set to a
/// propagable literal stands for it; every other declaration blocks the name.
pub open spec fn declaration_entry(d: PengBindedDeclaration) -> PengConstantPropagationEntry {
    match d {
        PengBinded::Immutable(PengDeclaration::Var(v)) => match v.value.value {
            Some(e) => if propagable_expression(e) {
                PengConstantPropagationEntry::Value(literal_of(e)->0)
            } else {
                PengConstantPropagationEntry::Blocked
            },
            None => PengConstantPropagationEntry::Blocked,
        },
        PengBinded::Immutable(PengDeclaration::As(v)) => if propagable_expression(v.value.value) {
            PengConstantPropagationEntry::Value(literal_of(v.value.value)->0)
        } else {
            PengConstantPropagationEntry::Blocked
        },
        _ => PengConstantPropagationEntry::Blocked,
    }
}

/// The name an assignment writes to, when it is a plain name.
pub open spec fn assigned_name(a: PengAssignStatement) -> Option<Seq<char>> {
    let target = match a {
        PengAssignStatement::Assign { target, .. } => target,
        PengAssignStatement::AddAssign { target, .. } => target,
        PengAssignStatement::SubtractAssign { target, .. } => target,
        PengAssignStatement::MultiplyAssign { target, .. } => target,
        PengAssignStatement::DivideAssign { target, .. } => target,
        PengAssignStatement::PowerAssign { target, .. } => target,
        PengAssignStatement::RemainderAssign { target, .. } => target,
    };
    match target.value {
        PengExpression::Identifier(name) => Some(name.value@),
        _ => None,
    }
}

/// A name just recorded in the innermost frame stands for what it was recorded with,
/// whatever the outer frames say of it.
pub proof fn lemma_lookup_after_record(
    frames: Seq<Map<Seq<char>, PengConstantPropagationEntry>>,
    name: Seq<char>,
    entry: PengConstantPropagationEntry,
)
    requires
        frames.len() >= 1,
    ensures
        lookup_spec(frames.update(frames.len() - 1, frames.last().insert(name, entry)), name) == match entry {
            PengConstantPropagationEntry::Value(l) => Some(l),
            PengConstantPropagationEntry::Blocked => None,
        },
{
    let f = frames.update(frames.len() - 1, frames.last().insert(name, entry));
    assert(f.last() == frames.last().insert(name, entry));
}

/// After an assignment to a name, the name stands for nothing in any frame.
pub proof fn lemma_lookup_after_block(frames: Seq<Map<Seq<char>, PengConstantPropagationEntry>>, name: Seq<char>)
    ensures
        lookup_spec(
            Seq::new(frames.len(), |i: int| frames[i].insert(name, PengConstantPropagationEntry::Blocked)),
            name,
        ) is None,
{
    let f = Seq::new(frames.len(), |i: int| frames[i].insert(name, PengConstantPropagationEntry::Blocked));
    if frames.len() > 0 {
        assert(f.last() == frames.last().insert(name, PengConstantPropagationEntry::Blocked));
    }
}

/// Leaving a frame that was just entered gives back the scope as it was: what the
/// frame bound is forgotten.
pub proof fn lemma_pop_after_push(
    frames: Seq<Map<Seq<char>, PengConstantPropagationEntry>>,
    inner: Map<Seq<char>, PengConstantPropagationEntry>,
    name: Seq<char>,
)
    ensures
        frames.push(inner).drop_last() == frames,
        lookup_spec(frames.push(inner).drop_last(), name) == lookup_spec(frames, name),
{
    assert(frames.push(inner).drop_last() =~= frames);
}

/// The names that the optimizer may replace by the literal they stand for, in nested
/// frames.
pub struct PengConstantPropagationScope {
    frames: Vec<Vec<(String, PengConstantPropagationEntry)>>,
}

impl PengConstantPropagationScope {
    /// There is at least one frame, and every literal a name stands for is propagable.
    pub closed spec fn wf(&self) -> bool {
        &&& self.frames@.len() >= 1
        &&& forall|i: int, j: int|
            0 <= i < self.frames@.len() && 0 <= j < self.frames@[i]@.len() ==> match (
            #[trigger] self.frames@[i]@[j]).1 {
                PengConstantPropagationEntry::Value(l) => propagable_literal(l),
                PengConstantPropagationEntry::Blocked => true,
            }
    }

    pub fn new() -> (res: Self)
        ensures
            res.wf(),
            res@ == seq![Map::<Seq<char>, PengConstantPropagationEntry>::empty()],
    {
        let mut frames = Vec::new();
        frames.push(Vec::new());
        let res = Self { frames };
        assert(res@ =~= seq![Map::<Seq<char>, PengConstantPropagationEntry>::empty()]);
        res
    }

    /// A copy of this scope, frame by frame.
    pub fn duplicate(&self) -> (res: Self)
        requires
            self.wf(),
        ensures
            res.wf(),
            res@ == self@,
    {
        let mut frames: Vec<Vec<(String, PengConstantPropagationEntry)>> = Vec::new();
        let mut i: usize = 0;
        while i < self.frames.len()
            invariant
                self.wf(),
                i <= self.frames@.len(),
                frames@.len() == i,
                forall|k: int| 0 <= k < i ==> #[trigger] frames@[k]@ == self.frames@[k]@,
            decreases self.frames@.len() - i,
        {
            let frame = &self.frames[i];
            let mut copy: Vec<(String, PengConstantPropagationEntry)> = Vec::new();
            let mut j: usize = 0;
            while j < frame.len()
                invariant
                    self.wf(),
                    i < self.frames@.len(),
                    *frame == self.frames@[i as int],
                    j <= frame@.len(),
                    copy@ == frame@.take(j as int),
                decreases frame@.len() - j,
            {
                let (name, entry) = &frame[j];
                assert(frame@[j as int] == self.frames@[i as int]@[j as int]);
                let e = match entry {
                    PengConstantPropagationEntry::Value(l) => PengConstantPropagationEntry::Value(
                        clone_propagable_literal(l),
                    ),
                    PengConstantPropagationEntry::Blocked => PengConstantPropagationEntry::Blocked,
                };
                copy.push((name.clone(), e));
                assert(copy@ =~= frame@.take(j + 1));
                j = j + 1;
            }
            assert(frame@.take(j as int) =~= frame@);
            frames.push(copy);
            i = i + 1;
        }
        let res = Self { frames };
        assert(res@ =~= self@);
        res
    }

    pub fn push_frame(&mut self)
        requires
            old(self).wf(),
        ensures
            final(self).wf(),
            final(self)@ == old(self)@.push(Map::empty()),
    {
        self.frames.push(Vec::new());
        assert(self@ =~= old(self)@.push(Map::empty()));
    }

    /// Leaves the innermost frame; the outermost one cannot be left.
    pub fn pop_frame(&mut self) -> (res: Result<(), PengError>)
        requires
            old(self).wf(),
        ensures
            final(self).wf(),
            res is Ok <==> old(self)@.len() > 1,
            res is Ok ==> final(self)@ == old(self)@.drop_last(),
            res matches Err(e) ==> final(self)@ == old(self)@ && (e matches PengError::SyntaxError(m) && m@
                == "cannot pop root constant propagation scope"@),
    {
        if self.frames.len() <= 1 {
            return Err(PengError::SyntaxError(String::from_str("cannot pop root constant propagation scope")));
        }
        self.frames.pop();
        assert(self@ =~= old(self)@.drop_last());
        Ok(())
    }

    fn set_current(&mut self, name: String, entry: PengConstantPropagationEntry)
        requires
            old(self).wf(),
            entry matches PengConstantPropagationEntry::Value(l) ==> propagable_literal(l),
        ensures
            final(self).wf(),
            final(self)@ == old(self)@.update(
                old(self)@.len() - 1,
                old(self)@.last().insert(name@, entry),
            ),
    {
        let n = self.frames.len();
        let ghost f0 = self.frames@[n - 1]@;
        self.frames[n - 1].push((name, entry));
        proof {
            let f1 = self.frames@[n - 1]@;
            assert(f1.drop_last() =~= f0);
            assert(self@ =~= old(self)@.update(old(self)@.len() - 1, old(self)@.last().insert(name@, entry)));
        }
    }

    /// Records what a declaration makes its name stand for, in the innermost frame.
    pub fn record_binded_declaration(&mut self, declaration: &PengBindedDeclaration) -> (res: Result<
        (),
        PengError,
    >)
        requires
            old(self).wf(),
        ensures
            final(self).wf(),
            res is Ok,
            final(self)@ == old(self)@.update(
                old(self)@.len() - 1,
                old(self)@.last().insert(declaration_name(declaration.bound()), declaration_entry(*declaration)),
            ),
    {
        match declaration {
            PengBinded::Immutable(declaration) => self.record_immutable_declaration(declaration),
            PengBinded::Mutable(declaration) => self.record_mutable_declaration(declaration),
        }
    }

    /// An immutable variable or alias set to a propagable literal stands for it; any other
    /// immutable declaration blocks its name.
    fn record_immutable_declaration(&mut self, declaration: &PengDeclaration) -> (res: Result<(), PengError>)
        requires
            old(self).wf(),
        ensures
            final(self).wf(),
            res is Ok,
            final(self)@ == old(self)@.update(
                old(self)@.len() - 1,
                old(self)@.last().insert(
                    declaration_name(*declaration),
                    declaration_entry(PengBinded::Immutable(*declaration)),
                ),
            ),
    {
        match declaration {
            PengDeclaration::Var(declaration) => {
                let name = declaration.value.name.value.clone();
                match &declaration.value.value {
                    Some(expression) => match &expression.value {
                        PengExpression::Literal(literal) => {
                            if can_propagate_literal(&literal.value) {
                                return self.set_current_value(name, clone_propagable_literal(&literal.value));
                            }
                            self.block_current_name(name)
                        },
                        _ => self.block_current_name(name),
                    },
                    None => self.block_current_name(name),
                }
            },
            PengDeclaration::As(declaration) => {
                let name = declaration.value.name.value.clone();
                match &declaration.value.value.value {
                    PengExpression::Literal(literal) => {
                        if can_propagate_literal(&literal.value) {
                            return self.set_current_value(name, clone_propagable_literal(&literal.value));
                        }
                        self.block_current_name(name)
                    },
                    _ => self.block_current_name(name),
                }
            },
            PengDeclaration::Function(declaration) => self.block_current_name(declaration.value.name.value.clone()),
            PengDeclaration::Type(declaration) => self.block_current_name(declaration.value.name.value.clone()),
            PengDeclaration::Module(declaration) => self.block_current_name(declaration.value.name.value.clone()),
            PengDeclaration::Operation(declaration) => self.block_current_name(declaration.value.name.value.clone()),
        }
    }

    /// A mutable declaration blocks its name.
    fn record_mutable_declaration(&mut self, declaration: &PengDeclaration) -> (res: Result<(), PengError>)
        requires
            old(self).wf(),
        ensures
            final(self).wf(),
            res is Ok,
            final(self)@ == old(self)@.update(
                old(self)@.len() - 1,
                old(self)@.last().insert(declaration_name(*declaration), PengConstantPropagationEntry::Blocked),
            ),
    {
        match declaration {
            PengDeclaration::Var(declaration) => self.block_current_name(declaration.value.name.value.clone()),
            PengDeclaration::As(declaration) => self.block_current_name(declaration.value.name.value.clone()),
            PengDeclaration::Function(declaration) => self.block_current_name(declaration.value.name.value.clone()),
            PengDeclaration::Type(declaration) => self.block_current_name(declaration.value.name.value.clone()),
            PengDeclaration::Module(declaration) => self.block_current_name(declaration.value.name.value.clone()),
            PengDeclaration::Operation(declaration) => self.block_current_name(declaration.value.name.value.clone()),
        }
    }

    /// An assignment to a plain name blocks that name in every frame; one to a field, a
    /// member or an element changes nothing here.
    pub fn record_assignment(&mut self, assignment: &PengAssignStatement) -> (res: Result<(), PengError>)
        requires
            old(self).wf(),
        ensures
            final(self).wf(),
            res is Ok,
            match assigned_name(*assignment) {
                Some(name) => final(self)@ == Seq::new(
                    old(self)@.len(),
                    |i: int| old(self)@[i].insert(name, PengConstantPropagationEntry::Blocked),
                ),
                None => final(self)@ == old(self)@,
            },
    {
        match assignment {
            PengAssignStatement::Assign { target, .. } => self.record_assignment_target(target),
            PengAssignStatement::AddAssign { target, .. } => self.record_assignment_target(target),
            PengAssignStatement::SubtractAssign { target, .. } => self.record_assignment_target(target),
            PengAssignStatement::MultiplyAssign { target, .. } => self.record_assignment_target(target),
            PengAssignStatement::DivideAssign { target, .. } => self.record_assignment_target(target),
            PengAssignStatement::PowerAssign { target, .. } => self.record_assignment_target(target),
            PengAssignStatement::RemainderAssign { target, .. } => self.record_assignment_target(target),
        }
    }

    fn record_assignment_target(&mut self, target: &PengPositionedExpression) -> (res: Result<(), PengError>)
        requires
            old(self).wf(),
        ensures
            final(self).wf(),
            res is Ok,
            match target.value {
                PengExpression::Identifier(name) => final(self)@ == Seq::new(
                    old(self)@.len(),
                    |i: int| old(self)@[i].insert(name.value@, PengConstantPropagationEntry::Blocked),
                ),
                _ => final(self)@ == old(self)@,
            },
    {
        match &target.value {
            PengExpression::Identifier(name) => self.block_name_in_all_frames(name.value.clone()),
            _ => Ok(()),
        }
    }

    /// Makes a name stand for a literal in the innermost frame.
    fn set_current_value(&mut self, name: String, value: PengLiteral) -> (res: Result<(), PengError>)
        requires
            old(self).wf(),
            propagable_literal(value),
        ensures
            final(self).wf(),
            res is Ok,
            final(self)@ == old(self)@.update(
                old(self)@.len() - 1,
                old(self)@.last().insert(name@, PengConstantPropagationEntry::Value(value)),
            ),
    {
        self.set_current(name, PengConstantPropagationEntry::Value(value));
        Ok(())
    }

    /// Blocks a name in the innermost frame.
    fn block_current_name(&mut self, name: String) -> (res: Result<(), PengError>)
        requires
            old(self).wf(),
        ensures
            final(self).wf(),
            res is Ok,
            final(self)@ == old(self)@.update(
                old(self)@.len() - 1,
                old(self)@.last().insert(name@, PengConstantPropagationEntry::Blocked),
            ),
    {
        self.set_current(name, PengConstantPropagationEntry::Blocked);
        Ok(())
    }

    /// Blocks a name in every frame.
    fn block_name_in_all_frames(&mut self, name: String) -> (res: Result<(), PengError>)
        requires
            old(self).wf(),
        ensures
            final(self).wf(),
            res is Ok,
            final(self)@ == Seq::new(
                old(self)@.len(),
                |i: int| old(self)@[i].insert(name@, PengConstantPropagationEntry::Blocked),
            ),
    {
        let mut i: usize = 0;
        while i < self.frames.len()
            invariant
                self.wf(),
                i <= self.frames@.len(),
                self.frames@.len() == old(self).frames@.len(),
                forall|k: int| 0 <= k < i ==> #[trigger] self@[k] == old(self)@[k].insert(
                    name@,
                    PengConstantPropagationEntry::Blocked,
                ),
                forall|k: int| i <= k < self.frames@.len() ==> #[trigger] self.frames@[k] == old(self).frames@[k],
            decreases self.frames@.len() - i,
        {
            let ghost f0 = self.frames@[i as int]@;
            let ghost before = self@;
            self.frames[i].push((name.clone(), PengConstantPropagationEntry::Blocked));
            proof {
                assert(self.frames@[i as int]@.drop_last() =~= f0);
                assert forall|k: int| 0 <= k < i + 1 implies #[trigger] self@[k] == old(self)@[k].insert(
                    name@,
                    PengConstantPropagationEntry::Blocked,
                ) by {
                    if k < i {
                        assert(self@[k] == before[k]);
                    }
                }
            }
            i = i + 1;
        }
        assert(self@ =~= Seq::new(
            old(self)@.len(),
            |i: int| old(self)@[i].insert(name@, PengConstantPropagationEntry::Blocked),
        ));
        Ok(())
    }

    /// The literal a name stands for, looking from the innermost frame outwards.
    #[verifier::loop_isolation(false)]
    fn lookup(&self, name: &String) -> (res: Option<PengLiteral>)
        requires
            self.wf(),
        ensures
            res == lookup_spec(self@, name@),
    {
        let mut i: usize = self.frames.len();
        assert(self@.take(i as int) =~= self@);
        while i > 0
            invariant
                self.wf(),
                i <= self.frames@.len(),
                lookup_spec(self@, name@) == lookup_spec(self@.take(i as int), name@),
            decreases i,
        {
            let frame = &self.frames[i - 1];
            let ghost t = self@.take(i as int);
            proof {
                assert(t.drop_last() =~= self@.take(i - 1));
                assert(t.last() == pairs_map(frame@));
            }
            let mut j: usize = frame.len();
            while j > 0
                invariant
                    self.wf(),
                    0 < i <= self.frames@.len(),
                    *frame == self.frames@[i - 1],
                    j <= frame@.len(),
                    forall|k: int| j <= k < frame@.len() ==> (#[trigger] frame@[k]).0@ != name@,
                decreases j,
            {
                if frame[j - 1].0 == *name {
                    proof {
                        lemma_pairs_map_suffix(frame@, j as int, name@);
                        assert(frame@.take(j as int).drop_last() =~= frame@.take(j - 1));
                        assert(frame@[j - 1] == self.frames@[i - 1]@[j - 1]);
                    }
                    return match &frame[j - 1].1 {
                        PengConstantPropagationEntry::Value(l) => Some(clone_propagable_literal(l)),
                        PengConstantPropagationEntry::Blocked => None,
                    };
                }
                j = j - 1;
            }
            proof {
                lemma_pairs_map_suffix(frame@, 0, name@);
                assert(frame@.take(0) =~= Seq::<(String, PengConstantPropagationEntry)>::empty());
            }
            i = i - 1;
        }
        None
    }

    /// A name that stands for a literal becomes that literal, at the name's place;
    /// anything else is left as it is.
    pub fn replace_identifier(&self, expression: PengPositionedExpression) -> (res: Result<
        PengPositionedExpression,
        PengError,
    >)
        requires
            self.wf(),
        ensures
            res matches Ok(x) && x == match expression.value {
                PengExpression::Identifier(name) => match lookup_spec(self@, name.value@) {
                    Some(l) => literal_expression_spec(l, expression.position),
                    None => expression,
                },
                _ => expression,
            },
    {
        let position = expression.position;
        match &expression.value {
            PengExpression::Identifier(name) => match self.lookup(&name.value) {
                Some(l) => Ok(
                    PengPositioned {
                        position,
                        value: PengExpression::Literal(PengPositioned { position, value: l }),
                    },
                ),
                None => Ok(expression),
            },
            _ => Ok(expression),
        }
    }
}

impl View for PengConstantPropagationScope {
    type V = Seq<Map<Seq<char>, PengConstantPropagationEntry>>;

    /// The frames, outermost first.
    closed spec fn view(&self) -> Self::V {
        Seq::new(self.frames@.len(), |i: int| pairs_map(self.frames@[i]@))
    }
}

fn clone_propagable_literal(l: &PengLiteral) -> (res: PengLiteral)
    requires
        propagable_literal(*l),
    ensures
        res == *l,
{
    match l {
        PengLiteral::Nil => PengLiteral::Nil,
        PengLiteral::Int(v) => PengLiteral::Int(*v),
        PengLiteral::Uint(v) => PengLiteral::Uint(*v),
        PengLiteral::Byte(v) => PengLiteral::Byte(*v),
        PengLiteral::Float32(v) => PengLiteral::Float32(*v),
        PengLiteral::Float64(v) => PengLiteral::Float64(*v),
        PengLiteral::Bool(v) => PengLiteral::Bool(*v),
        PengLiteral::String(s) => PengLiteral::String(s.clone()),
        _ => PengLiteral::Nil,
    }
}

/// Whether an expression is a literal that can stand in for a name.
pub fn can_propagate_expression(expression: &PengPositionedExpression) -> (res: bool)
    ensures
        res == propagable_expression(*expression),
{
    match &expression.value {
        PengExpression::Literal(literal) => can_propagate_literal(&literal.value),
        _ => false,
    }
}

/// Whether a literal can stand in for a name: nil, numbers, booleans and strings can;
/// vectors, objects, functions, modules, operations and types cannot.
pub fn can_propagate_literal(literal: &PengLiteral) -> (res: bool)
    ensures
        res == propagable_literal(*literal),
{
    match literal {
        PengLiteral::Nil => true,
        PengLiteral::Int(_) => true,
        PengLiteral::Uint(_) => true,
        PengLiteral::Byte(_) => true,
        PengLiteral::Float32(_) => true,
        PengLiteral::Float64(_) => true,
        PengLiteral::Bool(_) => true,
        PengLiteral::String(_) => true,
        PengLiteral::Type(_) => false,
        PengLiteral::Function(_) => false,
        PengLiteral::Module(_) => false,
        PengLiteral::Vector(_) => false,
        PengLiteral::Operation(_) => false,
        PengLiteral::Object(_) => false,
    }
}

} // verus!
