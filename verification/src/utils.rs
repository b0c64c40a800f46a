use vstd::prelude::*;

verus! {

/// An address in the runtime heap.
#[derive(Debug, Clone, Copy, PartialEq, Eq, PartialOrd, Ord, Hash, Structural)]
pub struct PengHeapPtr(pub usize);

/// An index into the pool of interned names.
#[derive(Debug, Clone, Copy, PartialEq, Eq, PartialOrd, Ord, Hash, Structural)]
pub struct PengNamePoolPtr(pub usize);

impl From<usize> for PengHeapPtr {
    fn from(value: usize) -> (res: Self) {
        PengHeapPtr(value)
    }
}

impl vstd::std_specs::convert::FromSpecImpl<usize> for PengHeapPtr {
    open spec fn obeys_from_spec() -> bool {
        true
    }

    open spec fn from_spec(v: usize) -> Self {
        PengHeapPtr(v)
    }
}

impl From<PengHeapPtr> for usize {
    fn from(value: PengHeapPtr) -> (res: Self) {
        value.0
    }
}

impl vstd::std_specs::convert::FromSpecImpl<PengHeapPtr> for usize {
    open spec fn obeys_from_spec() -> bool {
        true
    }

    open spec fn from_spec(v: PengHeapPtr) -> Self {
        v.0
    }
}

impl core::ops::Add<usize> for PengHeapPtr {
    type Output = Self;

    fn add(self, rhs: usize) -> (res: Self) {
        PengHeapPtr(self.0 + rhs)
    }
}

impl vstd::std_specs::ops::AddSpecImpl<usize> for PengHeapPtr {
    open spec fn obeys_add_spec() -> bool {
        true
    }

    open spec fn add_req(self, rhs: usize) -> bool {
        self.0 + rhs <= usize::MAX
    }

    open spec fn add_spec(self, rhs: usize) -> Self {
        PengHeapPtr((self.0 + rhs) as usize)
    }
}

impl core::ops::Sub<usize> for PengHeapPtr {
    type Output = Self;

    fn sub(self, rhs: usize) -> (res: Self) {
        PengHeapPtr(self.0 - rhs)
    }
}

impl vstd::std_specs::ops::SubSpecImpl<usize> for PengHeapPtr {
    open spec fn obeys_sub_spec() -> bool {
        true
    }

    open spec fn sub_req(self, rhs: usize) -> bool {
        self.0 >= rhs
    }

    open spec fn sub_spec(self, rhs: usize) -> Self {
        PengHeapPtr((self.0 - rhs) as usize)
    }
}

impl core::ops::Mul<usize> for PengHeapPtr {
    type Output = Self;

    fn mul(self, rhs: usize) -> (res: Self) {
        PengHeapPtr(self.0 * rhs)
    }
}

impl vstd::std_specs::ops::MulSpecImpl<usize> for PengHeapPtr {
    open spec fn obeys_mul_spec() -> bool {
        true
    }

    open spec fn mul_req(self, rhs: usize) -> bool {
        self.0 * rhs <= usize::MAX
    }

    open spec fn mul_spec(self, rhs: usize) -> Self {
        PengHeapPtr((self.0 * rhs) as usize)
    }
}

impl core::ops::Div<usize> for PengHeapPtr {
    type Output = Self;

    fn div(self, rhs: usize) -> (res: Self) {
        PengHeapPtr(self.0 / rhs)
    }
}

impl vstd::std_specs::ops::DivSpecImpl<usize> for PengHeapPtr {
    open spec fn obeys_div_spec() -> bool {
        true
    }

    open spec fn div_req(self, rhs: usize) -> bool {
        rhs != 0
    }

    open spec fn div_spec(self, rhs: usize) -> Self {
        PengHeapPtr(self.0 / rhs)
    }
}

impl core::ops::Rem<usize> for PengHeapPtr {
    type Output = Self;

    fn rem(self, rhs: usize) -> (res: Self) {
        PengHeapPtr(self.0 % rhs)
    }
}

impl vstd::std_specs::ops::RemSpecImpl<usize> for PengHeapPtr {
    open spec fn obeys_rem_spec() -> bool {
        true
    }

    open spec fn rem_req(self, rhs: usize) -> bool {
        rhs != 0
    }

    open spec fn rem_spec(self, rhs: usize) -> Self {
        PengHeapPtr(self.0 % rhs)
    }
}

impl From<usize> for PengNamePoolPtr {
    fn from(value: usize) -> (res: Self) {
        PengNamePoolPtr(value)
    }
}

impl vstd::std_specs::convert::FromSpecImpl<usize> for PengNamePoolPtr {
    open spec fn obeys_from_spec() -> bool {
        true
    }

    open spec fn from_spec(v: usize) -> Self {
        PengNamePoolPtr(v)
    }
}

impl From<PengNamePoolPtr> for usize {
    fn from(value: PengNamePoolPtr) -> (res: Self) {
        value.0
    }
}

impl vstd::std_specs::convert::FromSpecImpl<PengNamePoolPtr> for usize {
    open spec fn obeys_from_spec() -> bool {
        true
    }

    open spec fn from_spec(v: PengNamePoolPtr) -> Self {
        v.0
    }
}

impl core::ops::Add<usize> for PengNamePoolPtr {
    type Output = Self;

    fn add(self, rhs: usize) -> (res: Self) {
        PengNamePoolPtr(self.0 + rhs)
    }
}

impl vstd::std_specs::ops::AddSpecImpl<usize> for PengNamePoolPtr {
    open spec fn obeys_add_spec() -> bool {
        true
    }

    open spec fn add_req(self, rhs: usize) -> bool {
        self.0 + rhs <= usize::MAX
    }

    open spec fn add_spec(self, rhs: usize) -> Self {
        PengNamePoolPtr((self.0 + rhs) as usize)
    }
}

impl core::ops::Sub<usize> for PengNamePoolPtr {
    type Output = Self;

    fn sub(self, rhs: usize) -> (res: Self) {
        PengNamePoolPtr(self.0 - rhs)
    }
}

impl vstd::std_specs::ops::SubSpecImpl<usize> for PengNamePoolPtr {
    open spec fn obeys_sub_spec() -> bool {
        true
    }

    open spec fn sub_req(self, rhs: usize) -> bool {
        self.0 >= rhs
    }

    open spec fn sub_spec(self, rhs: usize) -> Self {
        PengNamePoolPtr((self.0 - rhs) as usize)
    }
}

impl core::ops::Mul<usize> for PengNamePoolPtr {
    type Output = Self;

    fn mul(self, rhs: usize) -> (res: Self) {
        PengNamePoolPtr(self.0 * rhs)
    }
}

impl vstd::std_specs::ops::MulSpecImpl<usize> for PengNamePoolPtr {
    open spec fn obeys_mul_spec() -> bool {
        true
    }

    open spec fn mul_req(self, rhs: usize) -> bool {
        self.0 * rhs <= usize::MAX
    }

    open spec fn mul_spec(self, rhs: usize) -> Self {
        PengNamePoolPtr((self.0 * rhs) as usize)
    }
}

impl core::ops::Div<usize> for PengNamePoolPtr {
    type Output = Self;

    fn div(self, rhs: usize) -> (res: Self) {
        PengNamePoolPtr(self.0 / rhs)
    }
}

impl vstd::std_specs::ops::DivSpecImpl<usize> for PengNamePoolPtr {
    open spec fn obeys_div_spec() -> bool {
        true
    }

    open spec fn div_req(self, rhs: usize) -> bool {
        rhs != 0
    }

    open spec fn div_spec(self, rhs: usize) -> Self {
        PengNamePoolPtr(self.0 / rhs)
    }
}

impl core::ops::Rem<usize> for PengNamePoolPtr {
    type Output = Self;

    fn rem(self, rhs: usize) -> (res: Self) {
        PengNamePoolPtr(self.0 % rhs)
    }
}

impl vstd::std_specs::ops::RemSpecImpl<usize> for PengNamePoolPtr {
    open spec fn obeys_rem_spec() -> bool {
        true
    }

    open spec fn rem_req(self, rhs: usize) -> bool {
        rhs != 0
    }

    open spec fn rem_spec(self, rhs: usize) -> Self {
        PengNamePoolPtr(self.0 % rhs)
    }
}

/// The names a list of pairs binds, a later pair replacing an earlier one of the same
/// name.
pub open spec fn pairs_map<V>(s: Seq<(String, V)>) -> Map<Seq<char>, V>
    decreases s.len(),
{
    if s.len() == 0 {
        Map::empty()
    } else {
        pairs_map(s.drop_last()).insert(s.last().0@, s.last().1)
    }
}

/// Pairs past `i` that do not name `k` change nothing of what `k` is bound to.
pub proof fn lemma_pairs_map_suffix<V>(s: Seq<(String, V)>, i: int, k: Seq<char>)
    requires
        0 <= i <= s.len(),
        forall|j: int| i <= j < s.len() ==> (#[trigger] s[j]).0@ != k,
    ensures
        pairs_map(s).contains_key(k) == pairs_map(s.take(i)).contains_key(k),
        pairs_map(s).contains_key(k) ==> pairs_map(s)[k] == pairs_map(s.take(i))[k],
    decreases s.len(),
{
    if i == s.len() {
        assert(s.take(i) =~= s);
    } else {
        assert(s.drop_last().take(i) =~= s.take(i));
        lemma_pairs_map_suffix(s.drop_last(), i, k);
    }
}

/// A copy of a vector of plain values.
pub fn copy_vec<T: Copy>(v: &Vec<T>) -> (res: Vec<T>)
    ensures
        res@ == v@,
{
    let mut res: Vec<T> = Vec::new();
    let mut i: usize = 0;
    while i < v.len()
        invariant
            i <= v@.len(),
            res@ == v@.subrange(0, i as int),
        decreases v@.len() - i,
    {
        res.push(v[i]);
        i = i + 1;
    }
    assert(res@ =~= v@);
    res
}

} // verus!
