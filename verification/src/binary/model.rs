use vstd::prelude::*;
use vstd::bytes::{spec_u16_to_le_bytes, spec_u32_to_le_bytes, spec_u64_to_le_bytes};
use vstd::utf8::encode_utf8;
use crate::binary::format::{
    PengBinaryBindedCell, PengBinaryBytecode, PengBinaryCell, PengBinaryEntryKind, PengBinaryOpcode,
    PengBinaryRef, PengBinaryType, PengBinaryValue,
};
use crate::binary::header::PengBinaryHeader;
use crate::function::PengBytecodeFunctionParams;
use crate::position::PengPosition;

verus! {

// ---------------------------------------------------------------------------
// The contents of binary values, strings taken by their characters.
// ---------------------------------------------------------------------------

pub enum RefV {
    Heap(u32),
    External(Seq<char>),
}

pub enum CellV {
    Nil,
    Int(i64),
    Uint(u64),
    Float32(u32),
    Float64(u64),
    Byte(u8),
    Bool(bool),
    Reference(RefV),
}

pub enum BindedV {
    Mutable(CellV),
    Immutable(CellV),
}

pub enum TypeV {
    Nil,
    Int,
    Uint,
    Float32,
    Float64,
    Byte,
    Bool,
    String,
    Object,
    Vector(Box<TypeV>),
    Type,
    Module,
    Function,
    Operator,
    Thread,
    Custom(Seq<(Seq<char>, BindedV)>),
    Any,
}

/// The operand of an instruction.
pub enum ArgV {
    NoArg,
    Num(usize),
    Text(Seq<char>),
    Ref(RefV),
}

/// An instruction seen as its tag byte and its operand.
pub struct OpcodeV {
    pub tag: u8,
    pub arg: ArgV,
}

pub struct CodeV {
    pub bytecode: Seq<OpcodeV>,
    pub positions: Seq<PengPosition>,
    pub consts: Seq<ValueV>,
    pub using_values: Seq<RefV>,
}

pub enum ValueV {
    Cell(CellV),
    String(Seq<char>),
    Object(Seq<(Seq<char>, BindedV)>),
    Vector(Seq<BindedV>),
    Type(TypeV),
    Module(Seq<(Seq<char>, BindedV)>),
    Function { code: CodeV, params: PengBytecodeFunctionParams },
    Operation(CodeV),
}

pub struct GlobalV {
    pub name: Seq<char>,
    pub mutable: bool,
    pub value: RefV,
}

pub struct FileV {
    pub header: PengBinaryHeader,
    pub entry_kind: PengBinaryEntryKind,
    pub heap: Seq<(u32, ValueV)>,
    pub globals: Seq<GlobalV>,
    pub init: Option<RefV>,
}

// ---------------------------------------------------------------------------
// Views of the binary values.
// ---------------------------------------------------------------------------

pub open spec fn ref_view(r: PengBinaryRef) -> RefV {
    match r {
        PengBinaryRef::Heap(id) => RefV::Heap(id.0),
        PengBinaryRef::External(s) => RefV::External(s@),
    }
}

pub open spec fn cell_view(c: PengBinaryCell) -> CellV {
    match c {
        PengBinaryCell::Nil => CellV::Nil,
        PengBinaryCell::Int(v) => CellV::Int(v),
        PengBinaryCell::Uint(v) => CellV::Uint(v),
        PengBinaryCell::Float32(v) => CellV::Float32(v),
        PengBinaryCell::Float64(v) => CellV::Float64(v),
        PengBinaryCell::Byte(v) => CellV::Byte(v),
        PengBinaryCell::Bool(v) => CellV::Bool(v),
        PengBinaryCell::Reference(r) => CellV::Reference(ref_view(r)),
    }
}

pub open spec fn binded_view(b: PengBinaryBindedCell) -> BindedV {
    match b {
        PengBinaryBindedCell::Mutable(c) => BindedV::Mutable(cell_view(c)),
        PengBinaryBindedCell::Immutable(c) => BindedV::Immutable(cell_view(c)),
    }
}

pub open spec fn field_view(f: (String, PengBinaryBindedCell)) -> (Seq<char>, BindedV) {
    (f.0@, binded_view(f.1))
}

pub open spec fn fields_view(s: Seq<(String, PengBinaryBindedCell)>) -> Seq<(Seq<char>, BindedV)> {
    s.map_values(|f: (String, PengBinaryBindedCell)| field_view(f))
}

pub open spec fn type_view(t: PengBinaryType) -> TypeV
    decreases t,
{
    match t {
        PengBinaryType::Nil => TypeV::Nil,
        PengBinaryType::Int => TypeV::Int,
        PengBinaryType::Uint => TypeV::Uint,
        PengBinaryType::Float32 => TypeV::Float32,
        PengBinaryType::Float64 => TypeV::Float64,
        PengBinaryType::Byte => TypeV::Byte,
        PengBinaryType::Bool => TypeV::Bool,
        PengBinaryType::String => TypeV::String,
        PengBinaryType::Object => TypeV::Object,
        PengBinaryType::Vector(inner) => TypeV::Vector(Box::new(type_view(*inner))),
        PengBinaryType::Type => TypeV::Type,
        PengBinaryType::Module => TypeV::Module,
        PengBinaryType::Function => TypeV::Function,
        PengBinaryType::Operator => TypeV::Operator,
        PengBinaryType::Thread => TypeV::Thread,
        PengBinaryType::Custom(fields) => TypeV::Custom(fields_view(fields@)),
        PengBinaryType::Any => TypeV::Any,
    }
}

pub open spec fn op(tag: u8, arg: ArgV) -> OpcodeV {
    OpcodeV { tag, arg }
}

/// Each instruction has a tag of its own; the operand follows the tag.
pub open spec fn opcode_view(o: PengBinaryOpcode) -> OpcodeV {
    match o {
        PengBinaryOpcode::PushConst(v) => op(0, ArgV::Num(v)),
        PengBinaryOpcode::MakeImmutable => op(1, ArgV::NoArg),
        PengBinaryOpcode::PushLocal(v) => op(2, ArgV::Num(v)),
        PengBinaryOpcode::ReserveLocal(v) => op(3, ArgV::Num(v)),
        PengBinaryOpcode::StoreLocal(v) => op(4, ArgV::Num(v)),
        PengBinaryOpcode::PushHeap(r) => op(5, ArgV::Ref(ref_view(r))),
        PengBinaryOpcode::PushHeapRef(r) => op(6, ArgV::Ref(ref_view(r))),
        PengBinaryOpcode::StoreHeap => op(7, ArgV::NoArg),
        PengBinaryOpcode::PushString(s) => op(8, ArgV::Text(s@)),
        PengBinaryOpcode::CreateEmptyObject => op(9, ArgV::NoArg),
        PengBinaryOpcode::CreateEmptyModule => op(10, ArgV::NoArg),
        PengBinaryOpcode::CreateVector(v) => op(11, ArgV::Num(v)),
        PengBinaryOpcode::CreateSuperType(v) => op(12, ArgV::Num(v)),
        PengBinaryOpcode::CreateTypedObject => op(14, ArgV::NoArg),
        PengBinaryOpcode::Convert => op(15, ArgV::NoArg),
        PengBinaryOpcode::Duplicate => op(16, ArgV::NoArg),
        PengBinaryOpcode::Pop => op(17, ArgV::NoArg),
        PengBinaryOpcode::Swap => op(18, ArgV::NoArg),
        PengBinaryOpcode::Add => op(19, ArgV::NoArg),
        PengBinaryOpcode::Subtract => op(20, ArgV::NoArg),
        PengBinaryOpcode::Multiply => op(21, ArgV::NoArg),
        PengBinaryOpcode::Divide => op(22, ArgV::NoArg),
        PengBinaryOpcode::Power => op(23, ArgV::NoArg),
        PengBinaryOpcode::Remainder => op(24, ArgV::NoArg),
        PengBinaryOpcode::Negate => op(25, ArgV::NoArg),
        PengBinaryOpcode::Concat => op(26, ArgV::NoArg),
        PengBinaryOpcode::And => op(27, ArgV::NoArg),
        PengBinaryOpcode::Or => op(28, ArgV::NoArg),
        PengBinaryOpcode::Not => op(29, ArgV::NoArg),
        PengBinaryOpcode::Equals => op(30, ArgV::NoArg),
        PengBinaryOpcode::NotEquals => op(31, ArgV::NoArg),
        PengBinaryOpcode::GreaterThan => op(32, ArgV::NoArg),
        PengBinaryOpcode::GreaterEqualsThan => op(33, ArgV::NoArg),
        PengBinaryOpcode::LessThan => op(34, ArgV::NoArg),
        PengBinaryOpcode::LessEqualsThan => op(35, ArgV::NoArg),
        PengBinaryOpcode::OperationCall => op(36, ArgV::NoArg),
        PengBinaryOpcode::TryOperationCall => op(37, ArgV::NoArg),
        PengBinaryOpcode::FunctionCall(v) => op(38, ArgV::Num(v)),
        PengBinaryOpcode::FunctionCallSpread(v) => op(39, ArgV::Num(v)),
        PengBinaryOpcode::TryFunctionCall(v) => op(40, ArgV::Num(v)),
        PengBinaryOpcode::TryFunctionCallSpread(v) => op(41, ArgV::Num(v)),
        PengBinaryOpcode::GetIndex => op(42, ArgV::NoArg),
        PengBinaryOpcode::SetIndex => op(43, ArgV::NoArg),
        PengBinaryOpcode::GetAttribute(s) => op(44, ArgV::Text(s@)),
        PengBinaryOpcode::SetAttribute(s) => op(45, ArgV::Text(s@)),
        PengBinaryOpcode::GetMember(s) => op(46, ArgV::Text(s@)),
        PengBinaryOpcode::SetMember(s) => op(47, ArgV::Text(s@)),
        PengBinaryOpcode::Jump(v) => op(48, ArgV::Num(v)),
        PengBinaryOpcode::JumpIfTrue(v) => op(49, ArgV::Num(v)),
        PengBinaryOpcode::JumpIfFalse(v) => op(50, ArgV::Num(v)),
        PengBinaryOpcode::Return => op(51, ArgV::NoArg),
    }
}

/// The tags whose instruction takes a number.
pub open spec fn is_num_tag(t: u8) -> bool {
    t == 0 || t == 2 || t == 3 || t == 4 || t == 11 || t == 12 || t == 38 || t == 39 || t == 40
        || t == 41 || t == 48 || t == 49 || t == 50
}

/// The tags whose instruction takes a name.
pub open spec fn is_text_tag(t: u8) -> bool {
    t == 8 || t == 44 || t == 45 || t == 46 || t == 47
}

/// The tags whose instruction takes a reference.
pub open spec fn is_ref_tag(t: u8) -> bool {
    t == 5 || t == 6
}

/// The tags whose instruction takes nothing.
pub open spec fn is_plain_tag(t: u8) -> bool {
    t == 1 || t == 7 || t == 9 || t == 10 || (14 <= t <= 37) || t == 42 || t == 43 || t == 51
}

/// The instructions that exist: a known tag with an operand of the kind it takes.
pub open spec fn opcode_exists(o: OpcodeV) -> bool {
    match o.arg {
        ArgV::NoArg => is_plain_tag(o.tag),
        ArgV::Num(_) => is_num_tag(o.tag),
        ArgV::Text(_) => is_text_tag(o.tag),
        ArgV::Ref(_) => is_ref_tag(o.tag),
    }
}

pub open spec fn code_view(c: PengBinaryBytecode) -> CodeV
    decreases c, 1nat,
{
    CodeV {
        bytecode: c.bytecode@.map_values(|o: PengBinaryOpcode| opcode_view(o)),
        positions: c.positions@,
        consts: values_view(c.consts@),
        using_values: c.using_values@.map_values(|r: PengBinaryRef| ref_view(r)),
    }
}

pub open spec fn values_view(s: Seq<PengBinaryValue>) -> Seq<ValueV>
    decreases s, 0nat,
{
    if s.len() == 0 {
        Seq::empty()
    } else {
        values_view(s.drop_last()).push(value_view(s.last()))
    }
}

pub open spec fn value_view(v: PengBinaryValue) -> ValueV
    decreases v, 2nat,
{
    match v {
        PengBinaryValue::Cell(c) => ValueV::Cell(cell_view(c)),
        PengBinaryValue::String(s) => ValueV::String(s@),
        PengBinaryValue::Object(f) => ValueV::Object(fields_view(f@)),
        PengBinaryValue::Vector(b) => ValueV::Vector(
            b@.map_values(|x: PengBinaryBindedCell| binded_view(x)),
        ),
        PengBinaryValue::Type(t) => ValueV::Type(type_view(t)),
        PengBinaryValue::Module(f) => ValueV::Module(fields_view(f@)),
        PengBinaryValue::Function { code, params } => ValueV::Function {
            code: code_view(code),
            params,
        },
        PengBinaryValue::Operation(code) => ValueV::Operation(code_view(code)),
    }
}

} // verus!

verus! {

pub open spec fn heap_value_view(e: crate::binary::format::PengBinaryHeapValue) -> (u32, ValueV) {
    (e.id.0, value_view(e.value))
}

pub open spec fn global_view(g: crate::binary::format::PengBinaryGlobal) -> GlobalV {
    GlobalV { name: g.name@, mutable: g.mutable, value: ref_view(g.value) }
}

pub open spec fn file_view(f: crate::binary::format::PengBinaryFile) -> FileV {
    FileV {
        header: f.header,
        entry_kind: f.entry_kind,
        heap: f.heap@.map_values(|e: crate::binary::format::PengBinaryHeapValue| heap_value_view(e)),
        globals: f.globals@.map_values(|g: crate::binary::format::PengBinaryGlobal| global_view(g)),
        init: init_view(f.init),
    }
}

pub open spec fn init_view(i: Option<PengBinaryRef>) -> Option<RefV> {
    match i {
        Some(r) => Some(ref_view(r)),
        None => None,
    }
}

// ---------------------------------------------------------------------------
// What a binary must satisfy to be loaded.
// ---------------------------------------------------------------------------

/// A reference is valid when it names a heap value that exists, or a non-empty name.
pub open spec fn valid_ref(r: RefV, heap_len: nat) -> bool {
    match r {
        RefV::Heap(id) => id < heap_len,
        RefV::External(s) => s.len() > 0,
    }
}

/// Constant indices are in range, jumps land inside the code or just after it, and
/// heap references are valid.
pub open spec fn valid_opcode(o: OpcodeV, c: CodeV, heap_len: nat) -> bool {
    match o.arg {
        ArgV::Num(x) => {
            &&& o.tag == 0 ==> x < c.consts.len()
            &&& (o.tag == 48 || o.tag == 49 || o.tag == 50) ==> x <= c.bytecode.len()
        },
        ArgV::Ref(r) => valid_ref(r, heap_len),
        _ => true,
    }
}

/// Positions are absent or one per instruction, every instruction is valid, and every
/// used value is a valid reference. Constants are not looked into.
pub open spec fn valid_code(c: CodeV, heap_len: nat) -> bool {
    &&& (c.positions.len() == 0 || c.positions.len() == c.bytecode.len())
    &&& forall|i: int| 0 <= i < c.bytecode.len() ==> valid_opcode(#[trigger] c.bytecode[i], c, heap_len)
    &&& forall|i: int| 0 <= i < c.using_values.len() ==> valid_ref(#[trigger] c.using_values[i], heap_len)
}

pub open spec fn valid_value(v: ValueV, heap_len: nat) -> bool {
    match v {
        ValueV::Function { code, .. } => valid_code(code, heap_len),
        ValueV::Operation(code) => valid_code(code, heap_len),
        _ => true,
    }
}

pub open spec fn valid_global(g: GlobalV, heap_len: nat) -> bool {
    g.name.len() > 0 && valid_ref(g.value, heap_len)
}

/// A binary can be loaded when its header is the current one (magic, version, little
/// endian), its heap ids are 0, 1, 2, ... in order, and all its code, globals and
/// initializer refer only to what exists.
pub open spec fn valid_file(f: FileV) -> bool {
    &&& f.header.magic@ == crate::binary::header::PENG_BINARY_MAGIC@
    &&& f.header.format_version == crate::binary::header::PENG_BINARY_FORMAT_VERSION
    &&& f.header.endian == crate::binary::header::PengBinaryEndian::Little
    &&& forall|i: int| 0 <= i < f.heap.len() ==> (#[trigger] f.heap[i]).0 == i && valid_value(f.heap[i].1, f.heap.len())
    &&& forall|i: int| 0 <= i < f.globals.len() ==> valid_global(#[trigger] f.globals[i], f.heap.len())
    &&& match f.init {
        Some(r) => valid_ref(r, f.heap.len()),
        None => true,
    }
}

// ---------------------------------------------------------------------------
// Why a binary cannot be loaded: the first check that fails, in the order they are made.
// ---------------------------------------------------------------------------

/// The first item of `s` for which `f` gives a reason, and that reason.
pub open spec fn first_error<T>(s: Seq<T>, f: spec_fn(T) -> Option<Seq<char>>) -> Option<Seq<char>>
    decreases s.len(),
{
    if s.len() == 0 {
        None
    } else {
        match f(s[0]) {
            Some(m) => Some(m),
            None => first_error(s.drop_first(), f),
        }
    }
}

/// When the items before `k` give no reason, the reason is the one of item `k`, if it
/// gives one; when no item gives one, there is none.
pub proof fn lemma_first_error<T>(s: Seq<T>, f: spec_fn(T) -> Option<Seq<char>>, k: int)
    requires
        0 <= k <= s.len(),
        forall|j: int| 0 <= j < k ==> f(#[trigger] s[j]) is None,
    ensures
        k < s.len() && f(s[k]) is Some ==> first_error(s, f) == f(s[k]),
        k == s.len() ==> first_error(s, f) is None,
    decreases k,
{
    if k > 0 {
        assert(f(s[0]) is None);
        let t = s.drop_first();
        assert forall|j: int| 0 <= j < k - 1 implies f(#[trigger] t[j]) is None by {
            assert(t[j] == s[j + 1]);
        }
        lemma_first_error(t, f, k - 1);
        if k < s.len() {
            assert(t[k - 1] == s[k]);
        }
    }
}

/// What is wrong with an instruction of `c`, if anything.
pub open spec fn opcode_error(o: OpcodeV, c: CodeV, heap_len: nat) -> Option<Seq<char>> {
    match o.arg {
        ArgV::Num(x) => if o.tag == 0 && x >= c.consts.len() {
            Some("constant index out of range"@)
        } else if (o.tag == 48 || o.tag == 49 || o.tag == 50) && x > c.bytecode.len() {
            Some("jump target out of range"@)
        } else {
            None
        },
        ArgV::Ref(r) => if valid_ref(r, heap_len) {
            None
        } else {
            Some("instruction heap id out of range"@)
        },
        _ => None,
    }
}

pub open spec fn opcode_check(c: CodeV, heap_len: nat) -> spec_fn(OpcodeV) -> Option<Seq<char>> {
    |o: OpcodeV| opcode_error(o, c, heap_len)
}

/// What is wrong with a value that code uses, if anything.
pub open spec fn using_check(heap_len: nat) -> spec_fn(RefV) -> Option<Seq<char>> {
    |r: RefV| if valid_ref(r, heap_len) {
        None
    } else {
        Some("using value heap id out of range"@)
    }
}

/// What is wrong with a piece of code: its positions, then its instructions in order, then
/// the values it uses in order.
pub open spec fn code_error(c: CodeV, heap_len: nat) -> Option<Seq<char>> {
    if c.positions.len() != 0 && c.positions.len() != c.bytecode.len() {
        Some("positions length differs from bytecode length"@)
    } else {
        match first_error(c.bytecode, opcode_check(c, heap_len)) {
            Some(m) => Some(m),
            None => first_error(c.using_values, using_check(heap_len)),
        }
    }
}

pub open spec fn value_error(v: ValueV, heap_len: nat) -> Option<Seq<char>> {
    match v {
        ValueV::Function { code, .. } => code_error(code, heap_len),
        ValueV::Operation(code) => code_error(code, heap_len),
        _ => None,
    }
}

/// What is wrong with the heap entry at `i`: its id, then its value.
pub open spec fn heap_entry_error(f: FileV, i: int) -> Option<Seq<char>> {
    if f.heap[i].0 != i {
        Some("heap ids must be contiguous and ordered"@)
    } else {
        value_error(f.heap[i].1, f.heap.len())
    }
}

pub open spec fn heap_check(f: FileV) -> spec_fn(int) -> Option<Seq<char>> {
    |i: int| heap_entry_error(f, i)
}

/// What is wrong with a global, if anything.
pub open spec fn global_check(heap_len: nat) -> spec_fn(GlobalV) -> Option<Seq<char>> {
    |g: GlobalV| if valid_global(g, heap_len) {
        None
    } else {
        Some("invalid global"@)
    }
}

/// The indices of the heap, in order.
pub open spec fn heap_indices(f: FileV) -> Seq<int> {
    Seq::new(f.heap.len(), |i: int| i)
}

/// Why a binary cannot be loaded: its magic, version and endian, then each heap entry in
/// order, each global in order, and its initializer; `None` when it can be.
pub open spec fn file_error(f: FileV) -> Option<Seq<char>> {
    if f.header.magic@ != crate::binary::header::PENG_BINARY_MAGIC@ {
        Some("invalid magic"@)
    } else if f.header.format_version != crate::binary::header::PENG_BINARY_FORMAT_VERSION {
        Some("unsupported format version"@)
    } else if f.header.endian != crate::binary::header::PengBinaryEndian::Little {
        Some("unsupported endian"@)
    } else {
        match first_error(heap_indices(f), heap_check(f)) {
            Some(m) => Some(m),
            None => match first_error(f.globals, global_check(f.heap.len())) {
                Some(m) => Some(m),
                None => match f.init {
                    Some(r) => if valid_ref(r, f.heap.len()) {
                        None
                    } else {
                        Some("invalid init reference"@)
                    },
                    None => None,
                },
            },
        }
    }
}

pub proof fn lemma_values_view_len(s: Seq<PengBinaryValue>)
    ensures
        values_view(s).len() == s.len(),
    decreases s.len(),
{
    if s.len() > 0 {
        lemma_values_view_len(s.drop_last());
    }
}

pub proof fn lemma_values_view_index(s: Seq<PengBinaryValue>, i: int)
    requires
        0 <= i < s.len(),
    ensures
        values_view(s)[i] == value_view(s[i]),
    decreases s.len(),
{
    lemma_values_view_len(s);
    if i < s.len() - 1 {
        lemma_values_view_len(s.drop_last());
        lemma_values_view_index(s.drop_last(), i);
    }
}

// ---------------------------------------------------------------------------
// The contents that some binary value has: every instruction is one that exists.
// ---------------------------------------------------------------------------

pub open spec fn code_wf(c: CodeV) -> bool
    decreases c, 1nat,
{
    &&& forall|i: int| 0 <= i < c.bytecode.len() ==> opcode_exists(#[trigger] c.bytecode[i])
    &&& values_wf(c.consts)
}

pub open spec fn values_wf(s: Seq<ValueV>) -> bool
    decreases s, 0nat,
{
    s.len() == 0 || (values_wf(s.drop_last()) && value_wf(s.last()))
}

pub open spec fn value_wf(v: ValueV) -> bool
    decreases v, 2nat,
{
    match v {
        ValueV::Function { code, .. } => code_wf(code),
        ValueV::Operation(code) => code_wf(code),
        _ => true,
    }
}

pub open spec fn file_wf(f: FileV) -> bool {
    forall|i: int| 0 <= i < f.heap.len() ==> value_wf(#[trigger] f.heap[i].1)
}

pub proof fn lemma_values_wf_index(s: Seq<ValueV>, i: int)
    requires
        values_wf(s),
        0 <= i < s.len(),
    ensures
        value_wf(s[i]),
    decreases s.len(),
{
    if i < s.len() - 1 {
        lemma_values_wf_index(s.drop_last(), i);
    }
}

pub proof fn lemma_values_wf_take(s: Seq<ValueV>, i: int)
    requires
        values_wf(s),
        0 <= i <= s.len(),
    ensures
        values_wf(s.take(i)),
    decreases s.len(),
{
    if i < s.len() {
        assert(s.drop_last().take(i) =~= s.take(i));
        lemma_values_wf_take(s.drop_last(), i);
    } else {
        assert(s.take(i) =~= s);
    }
}

/// The contents of every binary value have every instruction existing.
pub proof fn lemma_value_view_wf(v: PengBinaryValue)
    ensures
        value_wf(value_view(v)),
    decreases v, 2nat,
{
    match v {
        PengBinaryValue::Function { code, .. } => lemma_code_view_wf(code),
        PengBinaryValue::Operation(code) => lemma_code_view_wf(code),
        _ => {},
    }
}

pub proof fn lemma_code_view_wf(c: PengBinaryBytecode)
    ensures
        code_wf(code_view(c)),
    decreases c, 1nat,
{
    lemma_values_view_wf(c.consts@);
}

pub proof fn lemma_values_view_wf(s: Seq<PengBinaryValue>)
    ensures
        values_wf(values_view(s)),
    decreases s, 0nat,
{
    if s.len() > 0 {
        lemma_values_view_wf(s.drop_last());
        lemma_value_view_wf(s.last());
        assert(values_view(s).drop_last() =~= values_view(s.drop_last()));
    }
}

} // verus!

verus! {

/// Every instruction the library's type can hold is one that exists in the format; with
/// the contracts of the instruction writer and reader, reading what was written gives
/// the instruction back and takes exactly its bytes.
pub proof fn lemma_opcode_view_exists(o: PengBinaryOpcode)
    ensures
        opcode_exists(opcode_view(o)),
{
}

} // verus!
