use vstd::prelude::*;
use crate::utils::{PengHeapPtr, PengNamePoolPtr, copy_vec};

verus! {

/// The type of a runtime value.
#[derive(Debug)]
pub enum PengType {
    Nil,
    Int,
    Uint,
    Float32,
    Float64,
    Byte,
    Bool,
    String,
    Object,
    Vector(Box<PengType>),
    Type,
    Module,
    Function,
    Operator,
    Thread,
    Custom(PengCustomType),
    Any,
    Union,
}

/// A user type: its fields, each a name and, where it has one, the value it defaults to.
/// No name occurs twice (see `wf`).
#[derive(Debug)]
pub struct PengCustomType {
    pub fields: Vec<(PengNamePoolPtr, Option<PengHeapPtr>)>,
}

/// The default recorded for `name`, if `name` is a field.
pub open spec fn field_lookup(
    fields: Seq<(PengNamePoolPtr, Option<PengHeapPtr>)>,
    name: PengNamePoolPtr,
) -> Option<Option<PengHeapPtr>>
    decreases fields.len(),
{
    if fields.len() == 0 {
        None
    } else if fields[0].0 == name {
        Some(fields[0].1)
    } else {
        field_lookup(fields.drop_first(), name)
    }
}

impl Clone for PengCustomType {
    fn clone(&self) -> (res: Self)
        ensures
            res.fields@ == self.fields@,
    {
        PengCustomType { fields: copy_vec(&self.fields) }
    }
}

impl PengCustomType {
    /// No field name occurs twice.
    pub open spec fn wf(self) -> bool {
        forall|i: int, j: int|
            0 <= i < j < self.fields@.len() ==> self.fields@[i].0 != self.fields@[j].0
    }

    /// Same number of fields, and each field of `self` is in `rhs` with the same default.
    pub open spec fn same_fields(self, rhs: Self) -> bool {
        &&& self.fields@.len() == rhs.fields@.len()
        &&& forall|i: int|
            0 <= i < self.fields@.len() ==> #[trigger] field_lookup(rhs.fields@, self.fields@[i].0)
                == Some(self.fields@[i].1)
    }

    /// Field lists with no name twice (as a map has them) are compared.
    pub fn equals(&self, rhs: &Self) -> (res: bool)
        requires
            self.wf(),
            rhs.wf(),
        ensures
            res <==> self.same_fields(*rhs),
    {
        if self.fields.len() != rhs.fields.len() {
            return false;
        }
        let mut i: usize = 0;
        while i < self.fields.len()
            invariant
                i <= self.fields@.len(),
                self.fields@.len() == rhs.fields@.len(),
                forall|k: int|
                    0 <= k < i ==> #[trigger] field_lookup(rhs.fields@, self.fields@[k].0) == Some(
                        self.fields@[k].1,
                    ),
            decreases self.fields@.len() - i,
        {
            let (name, value) = self.fields[i];
            let found = lookup_field(&rhs.fields, name);
            let same = match (found, value) {
                (Some(Some(a)), Some(b)) => a.0 == b.0,
                (Some(None), None) => true,
                _ => false,
            };
            if !same {
                return false;
            }
            i = i + 1;
        }
        true
    }
}

/// The default recorded for `name` in `fields`, if `name` is a field.
fn lookup_field(
    fields: &Vec<(PengNamePoolPtr, Option<PengHeapPtr>)>,
    name: PengNamePoolPtr,
) -> (res: Option<Option<PengHeapPtr>>)
    ensures
        res == field_lookup(fields@, name),
{
    let mut i: usize = 0;
    assert(fields@.skip(0) =~= fields@);
    while i < fields.len()
        invariant
            i <= fields@.len(),
            field_lookup(fields@, name) == field_lookup(fields@.skip(i as int), name),
        decreases fields@.len() - i,
    {
        assert(fields@.skip(i as int).drop_first() =~= fields@.skip(i + 1));
        if fields[i].0.0 == name.0 {
            return Some(fields[i].1);
        }
        i = i + 1;
    }
    None
}

/// Structural equality of types; a union type is equal to no type, itself included.
pub open spec fn types_equal(a: PengType, b: PengType) -> bool
    decreases a,
{
    match (a, b) {
        (PengType::Vector(l), PengType::Vector(r)) => types_equal(*l, *r),
        (PengType::Custom(l), PengType::Custom(r)) => l.same_fields(r),
        (PengType::Nil, PengType::Nil) => true,
        (PengType::Int, PengType::Int) => true,
        (PengType::Uint, PengType::Uint) => true,
        (PengType::Float32, PengType::Float32) => true,
        (PengType::Float64, PengType::Float64) => true,
        (PengType::Byte, PengType::Byte) => true,
        (PengType::Bool, PengType::Bool) => true,
        (PengType::String, PengType::String) => true,
        (PengType::Object, PengType::Object) => true,
        (PengType::Type, PengType::Type) => true,
        (PengType::Module, PengType::Module) => true,
        (PengType::Function, PengType::Function) => true,
        (PengType::Operator, PengType::Operator) => true,
        (PengType::Thread, PengType::Thread) => true,
        (PengType::Any, PengType::Any) => true,
        _ => false,
    }
}

/// The same type, field lists compared by their contents.
pub open spec fn same_type(a: PengType, b: PengType) -> bool
    decreases a,
{
    match (a, b) {
        (PengType::Vector(l), PengType::Vector(r)) => same_type(*l, *r),
        (PengType::Custom(l), PengType::Custom(r)) => l.fields@ == r.fields@,
        (PengType::Vector(_), _) => false,
        (PengType::Custom(_), _) => false,
        _ => a == b,
    }
}

impl Clone for PengType {
    fn clone(&self) -> (res: Self)
        ensures
            same_type(res, *self),
        decreases *self,
    {
        match self {
            PengType::Vector(inner) => PengType::Vector(Box::new((**inner).clone())),
            PengType::Custom(custom) => PengType::Custom(custom.clone()),
            PengType::Nil => PengType::Nil,
            PengType::Int => PengType::Int,
            PengType::Uint => PengType::Uint,
            PengType::Float32 => PengType::Float32,
            PengType::Float64 => PengType::Float64,
            PengType::Byte => PengType::Byte,
            PengType::Bool => PengType::Bool,
            PengType::String => PengType::String,
            PengType::Object => PengType::Object,
            PengType::Type => PengType::Type,
            PengType::Module => PengType::Module,
            PengType::Function => PengType::Function,
            PengType::Operator => PengType::Operator,
            PengType::Thread => PengType::Thread,
            PengType::Any => PengType::Any,
            PengType::Union => PengType::Union,
        }
    }
}

impl PengType {
    /// Types whose custom types have no field name twice are compared.
    pub fn equals(&self, rhs: &Self) -> (res: bool)
        requires
            type_wf(*self),
            type_wf(*rhs),
        ensures
            res == types_equal(*self, *rhs),
        decreases *self,
    {
        match (self, rhs) {
            (Self::Vector(left), Self::Vector(right)) => left.equals(right),
            (Self::Custom(left), Self::Custom(right)) => left.equals(right),
            (Self::Nil, Self::Nil)
            | (Self::Int, Self::Int)
            | (Self::Uint, Self::Uint)
            | (Self::Float32, Self::Float32)
            | (Self::Float64, Self::Float64)
            | (Self::Byte, Self::Byte)
            | (Self::Bool, Self::Bool)
            | (Self::String, Self::String)
            | (Self::Object, Self::Object)
            | (Self::Type, Self::Type)
            | (Self::Module, Self::Module)
            | (Self::Function, Self::Function)
            | (Self::Operator, Self::Operator)
            | (Self::Thread, Self::Thread)
            | (Self::Any, Self::Any) => true,
            _ => false,
        }
    }
}

} // verus!

verus! {

proof fn lemma_field_lookup_found(s: Seq<(PengNamePoolPtr, Option<PengHeapPtr>)>, k: PengNamePoolPtr)
    ensures
        field_lookup(s, k) matches Some(v) ==> exists|i: int| 0 <= i < s.len() && s[i].0 == k && s[i].1 == v,
    decreases s.len(),
{
    if s.len() > 0 && s[0].0 != k {
        lemma_field_lookup_found(s.drop_first(), k);
        if let Some(v) = field_lookup(s, k) {
            let i = choose|i: int| 0 <= i < s.drop_first().len() && s.drop_first()[i].0 == k && s.drop_first()[i].1 == v;
            assert(s[i + 1] == s.drop_first()[i]);
        }
    }
}

proof fn lemma_field_lookup_at(s: Seq<(PengNamePoolPtr, Option<PengHeapPtr>)>, i: int)
    requires
        0 <= i < s.len(),
        forall|a: int, b: int| 0 <= a < b < s.len() ==> s[a].0 != s[b].0,
    ensures
        field_lookup(s, s[i].0) == Some(s[i].1),
    decreases s.len(),
{
    if i > 0 {
        assert(s[0].0 != s[i].0);
        let t = s.drop_first();
        assert forall|a: int, b: int| 0 <= a < b < t.len() implies t[a].0 != t[b].0 by {
            assert(t[a] == s[a + 1] && t[b] == s[b + 1]);
        }
        assert(t[i - 1] == s[i]);
        lemma_field_lookup_at(t, i - 1);
    }
}

/// The names of a list of fields.
pub open spec fn field_names(s: Seq<(PengNamePoolPtr, Option<PengHeapPtr>)>) -> Seq<PengNamePoolPtr> {
    s.map_values(|p: (PengNamePoolPtr, Option<PengHeapPtr>)| p.0)
}

/// Between field lists with no name twice, having the same fields is symmetric, and every
/// such list has the same fields as itself.
pub proof fn lemma_same_fields_symmetric(a: PengCustomType, b: PengCustomType)
    requires
        a.wf(),
        b.wf(),
    ensures
        a.same_fields(a),
        a.same_fields(b) ==> b.same_fields(a),
{
    assert forall|i: int| 0 <= i < a.fields@.len() implies #[trigger] field_lookup(a.fields@, a.fields@[i].0) == Some(
        a.fields@[i].1,
    ) by {
        lemma_field_lookup_at(a.fields@, i);
    }
    if a.same_fields(b) {
        let ka = field_names(a.fields@);
        let kb = field_names(b.fields@);
        assert(ka.no_duplicates());
        assert(kb.no_duplicates());
        ka.unique_seq_to_set();
        kb.unique_seq_to_set();
        assert forall|x: PengNamePoolPtr| ka.to_set().contains(x) implies kb.to_set().contains(x) by {
            let i = choose|i: int| 0 <= i < ka.len() && ka[i] == x;
            lemma_field_lookup_found(b.fields@, x);
            assert(field_lookup(b.fields@, a.fields@[i].0) == Some(a.fields@[i].1));
            let j = choose|j: int| 0 <= j < b.fields@.len() && b.fields@[j].0 == x && b.fields@[j].1 == a.fields@[i].1;
            assert(kb[j] == x);
        }
        vstd::set_lib::lemma_subset_equality(ka.to_set(), kb.to_set());
        assert forall|j: int| 0 <= j < b.fields@.len() implies #[trigger] field_lookup(a.fields@, b.fields@[j].0) == Some(
            b.fields@[j].1,
        ) by {
            assert(kb[j] == b.fields@[j].0);
            assert(kb.to_set().contains(kb[j]));
            assert(ka.to_set().contains(kb[j]));
            let i = choose|i: int| 0 <= i < ka.len() && ka[i] == kb[j];
            assert(field_lookup(b.fields@, a.fields@[i].0) == Some(a.fields@[i].1));
            lemma_field_lookup_at(b.fields@, j);
            lemma_field_lookup_at(a.fields@, i);
        }
    }
}

/// Every custom type inside a type has no field name twice.
pub open spec fn type_wf(t: PengType) -> bool
    decreases t,
{
    match t {
        PengType::Vector(inner) => type_wf(*inner),
        PengType::Custom(c) => c.wf(),
        _ => true,
    }
}

/// A type with no union inside.
pub open spec fn union_free(t: PengType) -> bool
    decreases t,
{
    match t {
        PengType::Vector(inner) => union_free(*inner),
        PengType::Union => false,
        _ => true,
    }
}

/// Type equality is symmetric, and reflexive on types with no union inside; vector types
/// are equal exactly when their element types are, and types of different kinds never are.
pub proof fn lemma_types_equal_laws(a: PengType, b: PengType)
    requires
        type_wf(a),
        type_wf(b),
    ensures
        types_equal(a, b) ==> types_equal(b, a),
        union_free(a) ==> types_equal(a, a),
    decreases a,
{
    match (a, b) {
        (PengType::Vector(l), PengType::Vector(r)) => {
            lemma_types_equal_laws(*l, *r);
        },
        (PengType::Vector(l), _) => {
            lemma_types_equal_laws(*l, *l);
        },
        (PengType::Custom(l), PengType::Custom(r)) => {
            lemma_same_fields_symmetric(l, r);
        },
        (PengType::Custom(l), _) => {
            lemma_same_fields_symmetric(l, l);
        },
        _ => {},
    }
}

} // verus!
