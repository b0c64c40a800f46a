use vstd::prelude::*;
use vstd::bytes::{spec_u16_to_le_bytes, spec_u32_to_le_bytes, spec_u64_to_le_bytes};
use vstd::utf8::encode_utf8;
use crate::binary::format::PengBinaryEntryKind;
use crate::binary::header::{PengBinaryEndian, PengBinaryHeader};
use crate::binary::model::{
    ArgV, BindedV, CellV, CodeV, FileV, GlobalV, OpcodeV, RefV, TypeV, ValueV,
};
use crate::function::PengBytecodeFunctionParams;
use crate::position::PengPosition;

verus! {

// The byte layout of a Penguin binary. Numbers are little endian; a length is a
// 64-bit number; a text is its UTF-8 byte length followed by its UTF-8 bytes; every
// choice between kinds of value is a tag byte.

pub open spec fn enc_u16(x: u16) -> Seq<u8> {
    spec_u16_to_le_bytes(x)
}

pub open spec fn enc_u32(x: u32) -> Seq<u8> {
    spec_u32_to_le_bytes(x)
}

pub open spec fn enc_u64(x: u64) -> Seq<u8> {
    spec_u64_to_le_bytes(x)
}

pub open spec fn enc_len(n: nat) -> Seq<u8> {
    enc_u64(n as u64)
}

pub open spec fn enc_text(s: Seq<char>) -> Seq<u8> {
    enc_len(encode_utf8(s).len()) + encode_utf8(s)
}

/// The encodings of the items of `s`, one after the other.
pub open spec fn enc_list<A>(s: Seq<A>, f: spec_fn(A) -> Seq<u8>) -> Seq<u8>
    decreases s.len(),
{
    if s.len() == 0 {
        Seq::empty()
    } else {
        enc_list(s.drop_last(), f) + f(s.last())
    }
}

pub open spec fn enc_ref(r: RefV) -> Seq<u8> {
    match r {
        RefV::Heap(id) => seq![0u8] + enc_u32(id),
        RefV::External(s) => seq![1u8] + enc_text(s),
    }
}

pub open spec fn enc_cell(c: CellV) -> Seq<u8> {
    match c {
        CellV::Nil => seq![0u8],
        CellV::Int(v) => seq![1u8] + enc_u64(v as u64),
        CellV::Uint(v) => seq![2u8] + enc_u64(v),
        CellV::Float32(v) => seq![3u8] + enc_u32(v),
        CellV::Float64(v) => seq![4u8] + enc_u64(v),
        CellV::Byte(v) => seq![5u8, v],
        CellV::Bool(v) => seq![6u8, if v { 1u8 } else { 0u8 }],
        CellV::Reference(r) => seq![7u8] + enc_ref(r),
    }
}

pub open spec fn enc_binded(b: BindedV) -> Seq<u8> {
    match b {
        BindedV::Mutable(c) => seq![0u8] + enc_cell(c),
        BindedV::Immutable(c) => seq![1u8] + enc_cell(c),
    }
}

pub open spec fn enc_field(f: (Seq<char>, BindedV)) -> Seq<u8> {
    enc_text(f.0) + enc_binded(f.1)
}

pub open spec fn enc_fields(s: Seq<(Seq<char>, BindedV)>) -> Seq<u8> {
    enc_len(s.len()) + enc_list(s, |f: (Seq<char>, BindedV)| enc_field(f))
}

pub open spec fn type_tag(t: TypeV) -> u8 {
    match t {
        TypeV::Nil => 0,
        TypeV::Int => 1,
        TypeV::Uint => 2,
        TypeV::Float32 => 3,
        TypeV::Float64 => 4,
        TypeV::Byte => 5,
        TypeV::Bool => 6,
        TypeV::String => 7,
        TypeV::Object => 8,
        TypeV::Vector(_) => 9,
        TypeV::Type => 10,
        TypeV::Module => 11,
        TypeV::Function => 12,
        TypeV::Operator => 13,
        TypeV::Thread => 14,
        TypeV::Custom(_) => 15,
        TypeV::Any => 16,
    }
}

pub open spec fn enc_type(t: TypeV) -> Seq<u8>
    decreases t,
{
    match t {
        TypeV::Vector(inner) => seq![9u8] + enc_type(*inner),
        TypeV::Custom(fields) => seq![15u8] + enc_fields(fields),
        _ => seq![type_tag(t)],
    }
}

pub open spec fn enc_arg(a: ArgV) -> Seq<u8> {
    match a {
        ArgV::NoArg => Seq::empty(),
        ArgV::Num(v) => enc_u64(v as u64),
        ArgV::Text(s) => enc_text(s),
        ArgV::Ref(r) => enc_ref(r),
    }
}

pub open spec fn enc_opcode(o: OpcodeV) -> Seq<u8> {
    seq![o.tag] + enc_arg(o.arg)
}

pub open spec fn enc_pos(p: PengPosition) -> Seq<u8> {
    enc_u64(p.id as u64) + enc_u64(p.line as u64) + match p.column {
        Some(x) => seq![1u8] + enc_u64(x as u64),
        None => seq![0u8],
    }
}

pub open spec fn enc_params(p: PengBytecodeFunctionParams) -> Seq<u8> {
    match p {
        PengBytecodeFunctionParams::Fixed(v) => seq![0u8] + enc_u64(v as u64),
        PengBytecodeFunctionParams::Variadic(v) => seq![1u8] + enc_u64(v as u64),
    }
}

pub open spec fn ops_section(s: Seq<OpcodeV>) -> Seq<u8> {
    enc_len(s.len()) + enc_list(s, |o: OpcodeV| enc_opcode(o))
}

pub open spec fn pos_section(s: Seq<PengPosition>) -> Seq<u8> {
    enc_len(s.len()) + enc_list(s, |p: PengPosition| enc_pos(p))
}

pub open spec fn refs_section(s: Seq<RefV>) -> Seq<u8> {
    enc_len(s.len()) + enc_list(s, |r: RefV| enc_ref(r))
}

pub open spec fn binded_section(s: Seq<BindedV>) -> Seq<u8> {
    enc_len(s.len()) + enc_list(s, |x: BindedV| enc_binded(x))
}

/// The constants of a code block: their count, then each value.
pub open spec fn consts_section(s: Seq<ValueV>) -> Seq<u8> {
    enc_len(s.len()) + enc_values(s)
}

pub open spec fn params_tag(p: PengBytecodeFunctionParams) -> u8 {
    match p {
        PengBytecodeFunctionParams::Fixed(_) => 0,
        PengBytecodeFunctionParams::Variadic(_) => 1,
    }
}

pub open spec fn params_count(p: PengBytecodeFunctionParams) -> usize {
    match p {
        PengBytecodeFunctionParams::Fixed(v) => v,
        PengBytecodeFunctionParams::Variadic(v) => v,
    }
}

pub proof fn lemma_params_split(p: PengBytecodeFunctionParams)
    ensures
        enc_params(p) == seq![params_tag(p)] + enc_len(params_count(p) as nat),
{
}

pub open spec fn enc_code(c: CodeV) -> Seq<u8>
    decreases c, 1nat,
{
    ops_section(c.bytecode) + (pos_section(c.positions) + ((enc_len(c.consts.len()) + enc_values(
        c.consts,
    )) + refs_section(c.using_values)))
}

pub open spec fn enc_values(s: Seq<ValueV>) -> Seq<u8>
    decreases s, 0nat,
{
    if s.len() == 0 {
        Seq::empty()
    } else {
        enc_values(s.drop_last()) + enc_value(s.last())
    }
}

pub open spec fn enc_value(v: ValueV) -> Seq<u8>
    decreases v, 2nat,
{
    match v {
        ValueV::Cell(c) => seq![0u8] + enc_cell(c),
        ValueV::String(s) => seq![1u8] + enc_text(s),
        ValueV::Object(f) => seq![2u8] + enc_fields(f),
        ValueV::Vector(b) => seq![3u8] + binded_section(b),
        ValueV::Type(t) => seq![4u8] + enc_type(t),
        ValueV::Module(f) => seq![5u8] + enc_fields(f),
        ValueV::Function { code, params } => seq![6u8] + enc_params(params) + enc_code(code),
        ValueV::Operation(code) => seq![7u8] + enc_code(code),
    }
}

pub open spec fn enc_endian(e: PengBinaryEndian) -> u8 {
    match e {
        PengBinaryEndian::Little => 0,
        PengBinaryEndian::Big => 1,
    }
}

pub open spec fn enc_entry_kind(k: PengBinaryEntryKind) -> u8 {
    match k {
        PengBinaryEntryKind::Program => 0,
        PengBinaryEntryKind::Script => 1,
    }
}

pub open spec fn enc_header(h: PengBinaryHeader) -> Seq<u8> {
    h.magic@ + enc_u16(h.format_version) + seq![h.arch_bits, enc_endian(h.endian)] + enc_u32(
        h.flags,
    )
}

pub open spec fn enc_heap_entry(e: (u32, ValueV)) -> Seq<u8> {
    enc_u32(e.0) + enc_value(e.1)
}

pub open spec fn enc_global(g: GlobalV) -> Seq<u8> {
    enc_text(g.name) + seq![if g.mutable { 1u8 } else { 0u8 }] + enc_ref(g.value)
}

pub open spec fn enc_init(i: Option<RefV>) -> Seq<u8> {
    match i {
        Some(r) => seq![1u8] + enc_ref(r),
        None => seq![0u8],
    }
}

/// The heap of a binary: its count, then each entry.
pub open spec fn heap_section(s: Seq<(u32, ValueV)>) -> Seq<u8> {
    enc_len(s.len()) + enc_list(s, |e: (u32, ValueV)| enc_heap_entry(e))
}

/// The globals of a binary: their count, then each global.
pub open spec fn globals_section(s: Seq<GlobalV>) -> Seq<u8> {
    enc_len(s.len()) + enc_list(s, |g: GlobalV| enc_global(g))
}

/// The bytes of a whole binary.
pub open spec fn enc_file(f: FileV) -> Seq<u8> {
    enc_header(f.header) + seq![enc_entry_kind(f.entry_kind)] + heap_section(f.heap) + globals_section(
        f.globals,
    ) + enc_init(f.init)
}

// ---------------------------------------------------------------------------
// Facts about list encodings.
// ---------------------------------------------------------------------------

pub proof fn lemma_enc_list_push<A>(s: Seq<A>, x: A, f: spec_fn(A) -> Seq<u8>)
    ensures
        enc_list(s.push(x), f) == enc_list(s, f) + f(x),
{
    assert(s.push(x).drop_last() =~= s);
}

pub proof fn lemma_enc_list_take_next<A>(s: Seq<A>, i: int, f: spec_fn(A) -> Seq<u8>)
    requires
        0 <= i < s.len(),
    ensures
        enc_list(s.take(i + 1), f) == enc_list(s.take(i), f) + f(s[i]),
{
    assert(s.take(i + 1).drop_last() =~= s.take(i));
}

pub proof fn lemma_enc_list_append<A>(s: Seq<A>, t: Seq<A>, f: spec_fn(A) -> Seq<u8>)
    ensures
        enc_list(s + t, f) == enc_list(s, f) + enc_list(t, f),
    decreases t.len(),
{
    if t.len() == 0 {
        assert(s + t =~= s);
        assert(enc_list(s, f) + Seq::<u8>::empty() =~= enc_list(s, f));
    } else {
        lemma_enc_list_append(s, t.drop_last(), f);
        assert((s + t).drop_last() =~= s + t.drop_last());
        assert((s + t).last() == t.last());
        assert(enc_list(s, f) + enc_list(t.drop_last(), f) + f(t.last()) =~= enc_list(s, f) + (
        enc_list(t.drop_last(), f) + f(t.last())));
    }
}

/// The encoding of a list splits at any item: what comes before it, the item, what comes after.
pub proof fn lemma_enc_list_split<A>(s: Seq<A>, i: int, f: spec_fn(A) -> Seq<u8>)
    requires
        0 <= i < s.len(),
    ensures
        enc_list(s, f) == enc_list(s.take(i), f) + f(s[i]) + enc_list(s.skip(i + 1), f),
{
    assert(s =~= s.take(i + 1) + s.skip(i + 1));
    lemma_enc_list_append(s.take(i + 1), s.skip(i + 1), f);
    lemma_enc_list_take_next(s, i, f);
}

/// A list whose items each take at least one byte takes at least as many bytes as items.
pub proof fn lemma_enc_list_len<A>(s: Seq<A>, f: spec_fn(A) -> Seq<u8>)
    requires
        forall|x: A| #[trigger] f(x).len() >= 1,
    ensures
        enc_list(s, f).len() >= s.len(),
    decreases s.len(),
{
    if s.len() > 0 {
        lemma_enc_list_len(s.drop_last(), f);
        assert(f(s.last()).len() >= 1);
    }
}

pub proof fn lemma_enc_values_push(s: Seq<ValueV>, x: ValueV)
    ensures
        enc_values(s.push(x)) == enc_values(s) + enc_value(x),
{
    assert(s.push(x).drop_last() =~= s);
}

pub proof fn lemma_enc_values_append(s: Seq<ValueV>, t: Seq<ValueV>)
    ensures
        enc_values(s + t) == enc_values(s) + enc_values(t),
    decreases t.len(),
{
    if t.len() == 0 {
        assert(s + t =~= s);
        assert(enc_values(s) + Seq::<u8>::empty() =~= enc_values(s));
    } else {
        lemma_enc_values_append(s, t.drop_last());
        assert((s + t).drop_last() =~= s + t.drop_last());
        assert((s + t).last() == t.last());
        assert(enc_values(s) + enc_values(t.drop_last()) + enc_value(t.last()) =~= enc_values(s) + (
        enc_values(t.drop_last()) + enc_value(t.last())));
    }
}

pub proof fn lemma_enc_values_split(s: Seq<ValueV>, i: int)
    requires
        0 <= i < s.len(),
    ensures
        enc_values(s) == enc_values(s.take(i)) + enc_value(s[i]) + enc_values(s.skip(i + 1)),
{
    assert(s =~= s.take(i + 1) + s.skip(i + 1));
    lemma_enc_values_append(s.take(i + 1), s.skip(i + 1));
    assert(s.take(i + 1).drop_last() =~= s.take(i));
}

pub proof fn lemma_enc_value_nonempty(v: ValueV)
    ensures
        enc_value(v).len() >= 1,
{
    reveal_with_fuel(enc_value, 1);
    assert(enc_value(v)[0] == enc_value(v)[0]);
    match v {
        ValueV::Cell(c) => {},
        _ => {},
    }
}

pub proof fn lemma_enc_values_len(s: Seq<ValueV>)
    ensures
        enc_values(s).len() >= s.len(),
    decreases s.len(),
{
    if s.len() > 0 {
        lemma_enc_values_len(s.drop_last());
        lemma_enc_value_nonempty(s.last());
    }
}

// ---------------------------------------------------------------------------
// Facts about prefixes, for reading.
// ---------------------------------------------------------------------------

/// `a` is the beginning of `s`.
pub open spec fn is_prefix(a: Seq<u8>, s: Seq<u8>) -> bool {
    a.len() <= s.len() && s.subrange(0, a.len() as int) == a
}

pub proof fn lemma_prefix_concat(a: Seq<u8>, b: Seq<u8>, s: Seq<u8>, t: Seq<u8>)
    requires
        is_prefix(a + b, s),
        s == a + t,
    ensures
        is_prefix(b, t),
{
    assert((a + b).subrange(a.len() as int, (a + b).len() as int) =~= b);
    assert(s.subrange(a.len() as int, (a + b).len() as int) =~= t.subrange(0, b.len() as int));
    assert(s.subrange(0, (a + b).len() as int).subrange(a.len() as int, (a + b).len() as int)
        =~= s.subrange(a.len() as int, (a + b).len() as int));
}

pub proof fn lemma_prefix_front(a: Seq<u8>, b: Seq<u8>, s: Seq<u8>)
    requires
        is_prefix(a + b, s),
    ensures
        is_prefix(a, s),
{
    assert(s.subrange(0, a.len() as int) =~= s.subrange(0, (a + b).len() as int).subrange(0, a.len() as int));
    assert((a + b).subrange(0, a.len() as int) =~= a);
}

/// Two encodings of the same length at the beginning of `s` are the same bytes.
pub proof fn lemma_prefix_same(a: Seq<u8>, b: Seq<u8>, s: Seq<u8>, t: Seq<u8>)
    requires
        s == a + t,
        is_prefix(b, s),
        a.len() == b.len(),
    ensures
        a == b,
{
    assert(s.subrange(0, a.len() as int) =~= a);
}

pub proof fn lemma_prefix_self(a: Seq<u8>, t: Seq<u8>)
    ensures
        is_prefix(a, a + t),
{
    assert((a + t).subrange(0, a.len() as int) =~= a);
}

pub proof fn lemma_u16_injective(x: u16, y: u16)
    requires
        enc_u16(x) == enc_u16(y),
    ensures
        x == y,
{
    vstd::bytes::lemma_auto_spec_u16_to_from_le_bytes();
    assert(spec_u16_to_le_bytes(x).len() > 0);
    assert(spec_u16_to_le_bytes(y).len() > 0);
    assert(vstd::bytes::spec_u16_from_le_bytes(spec_u16_to_le_bytes(x)) == x);
    assert(vstd::bytes::spec_u16_from_le_bytes(spec_u16_to_le_bytes(y)) == y);
}

pub proof fn lemma_u32_injective(x: u32, y: u32)
    requires
        enc_u32(x) == enc_u32(y),
    ensures
        x == y,
{
    vstd::bytes::lemma_auto_spec_u32_to_from_le_bytes();
    assert(spec_u32_to_le_bytes(x).len() > 0);
    assert(spec_u32_to_le_bytes(y).len() > 0);
    assert(vstd::bytes::spec_u32_from_le_bytes(spec_u32_to_le_bytes(x)) == x);
    assert(vstd::bytes::spec_u32_from_le_bytes(spec_u32_to_le_bytes(y)) == y);
}

pub proof fn lemma_u64_injective(x: u64, y: u64)
    requires
        enc_u64(x) == enc_u64(y),
    ensures
        x == y,
{
    vstd::bytes::lemma_auto_spec_u64_to_from_le_bytes();
    assert(spec_u64_to_le_bytes(x).len() > 0);
    assert(spec_u64_to_le_bytes(y).len() > 0);
    assert(vstd::bytes::spec_u64_from_le_bytes(spec_u64_to_le_bytes(x)) == x);
    assert(vstd::bytes::spec_u64_from_le_bytes(spec_u64_to_le_bytes(y)) == y);
}

pub proof fn lemma_fixed_lens()
    ensures
        forall|x: u16| #[trigger] enc_u16(x).len() == 2,
        forall|x: u32| #[trigger] enc_u32(x).len() == 4,
        forall|x: u64| #[trigger] enc_u64(x).len() == 8,
{
    vstd::bytes::lemma_auto_spec_u16_to_from_le_bytes();
    vstd::bytes::lemma_auto_spec_u32_to_from_le_bytes();
    vstd::bytes::lemma_auto_spec_u64_to_from_le_bytes();
}

/// Reading the `i`-th item of a list whose encoding begins `s1`, after the first `i`
/// items were read: its encoding begins what is left.
pub proof fn lemma_list_step<A>(vs: Seq<A>, i: int, f: spec_fn(A) -> Seq<u8>, s1: Seq<u8>, si: Seq<u8>)
    requires
        0 <= i < vs.len(),
        is_prefix(enc_list(vs, f), s1),
        s1 == enc_list(vs.take(i), f) + si,
    ensures
        is_prefix(f(vs[i]), si),
{
    lemma_enc_list_split(vs, i, f);
    let a = enc_list(vs.take(i), f);
    let b = f(vs[i]);
    let c = enc_list(vs.skip(i + 1), f);
    assert(enc_list(vs, f) =~= a + (b + c));
    lemma_prefix_concat(a, b + c, s1, si);
    lemma_prefix_front(b, c, si);
}

pub proof fn lemma_values_step(vs: Seq<ValueV>, i: int, s1: Seq<u8>, si: Seq<u8>)
    requires
        0 <= i < vs.len(),
        is_prefix(enc_values(vs), s1),
        s1 == enc_values(vs.take(i)) + si,
    ensures
        is_prefix(enc_value(vs[i]), si),
{
    lemma_enc_values_split(vs, i);
    let a = enc_values(vs.take(i));
    let b = enc_value(vs[i]);
    let c = enc_values(vs.skip(i + 1));
    assert(enc_values(vs) =~= a + (b + c));
    lemma_prefix_concat(a, b + c, s1, si);
    lemma_prefix_front(b, c, si);
}

/// An encoding that starts with tag `t2` begins `[t] + s1` only if `t2 == t`, and then the
/// rest of it begins `s1`.
pub proof fn lemma_prefix_tag(t: u8, t2: u8, a: Seq<u8>, s0: Seq<u8>, s1: Seq<u8>)
    requires
        s0 == seq![t] + s1,
        is_prefix(seq![t2] + a, s0),
    ensures
        t2 == t,
        is_prefix(a, s1),
{
    assert((seq![t2] + a)[0] == t2);
    assert(s0.subrange(0, (seq![t2] + a).len() as int)[0] == s0[0]);
    lemma_prefix_concat(seq![t], a, s0, s1);
}

/// An encoding that begins `s` makes `s` at least as long as the encoding.
pub proof fn lemma_prefix_len(a: Seq<u8>, s: Seq<u8>)
    requires
        is_prefix(a, s),
    ensures
        a.len() <= s.len(),
{
}

/// The first byte of a non-empty encoding that begins `s` is the first byte of `s`.
pub proof fn lemma_prefix_first(a: Seq<u8>, s: Seq<u8>)
    requires
        is_prefix(a, s),
        a.len() >= 1,
    ensures
        s.len() >= 1,
        s[0] == a[0],
{
    assert(s.subrange(0, a.len() as int)[0] == s[0]);
}

pub open spec fn cell_tag(c: CellV) -> u8 {
    match c {
        CellV::Nil => 0,
        CellV::Int(_) => 1,
        CellV::Uint(_) => 2,
        CellV::Float32(_) => 3,
        CellV::Float64(_) => 4,
        CellV::Byte(_) => 5,
        CellV::Bool(_) => 6,
        CellV::Reference(_) => 7,
    }
}

pub open spec fn cell_body(c: CellV) -> Seq<u8> {
    match c {
        CellV::Nil => Seq::empty(),
        CellV::Int(v) => enc_u64(v as u64),
        CellV::Uint(v) => enc_u64(v),
        CellV::Float32(v) => enc_u32(v),
        CellV::Float64(v) => enc_u64(v),
        CellV::Byte(v) => seq![v],
        CellV::Bool(v) => seq![if v { 1u8 } else { 0u8 }],
        CellV::Reference(r) => enc_ref(r),
    }
}

pub proof fn lemma_cell_split(c: CellV)
    ensures
        enc_cell(c) == seq![cell_tag(c)] + cell_body(c),
{
    assert(enc_cell(c) =~= seq![cell_tag(c)] + cell_body(c));
}

pub open spec fn binded_tag(b: BindedV) -> u8 {
    match b {
        BindedV::Mutable(_) => 0,
        BindedV::Immutable(_) => 1,
    }
}

pub open spec fn binded_cell(b: BindedV) -> CellV {
    match b {
        BindedV::Mutable(c) => c,
        BindedV::Immutable(c) => c,
    }
}

pub proof fn lemma_binded_split(b: BindedV)
    ensures
        enc_binded(b) == seq![binded_tag(b)] + enc_cell(binded_cell(b)),
{
}

pub proof fn lemma_enc_cell_nonempty(c: CellV)
    ensures
        enc_cell(c).len() >= 1,
{
    lemma_cell_split(c);
}

pub proof fn lemma_enc_text_len(s: Seq<char>)
    ensures
        enc_text(s).len() >= 8,
{
    lemma_fixed_lens();
}

pub open spec fn type_body(t: TypeV) -> Seq<u8> {
    match t {
        TypeV::Vector(inner) => enc_type(*inner),
        TypeV::Custom(fields) => enc_fields(fields),
        _ => Seq::empty(),
    }
}

pub proof fn lemma_type_split(t: TypeV)
    ensures
        enc_type(t) == seq![type_tag(t)] + type_body(t),
{
    assert(enc_type(t) =~= seq![type_tag(t)] + type_body(t));
}

pub open spec fn column_tag(c: Option<usize>) -> u8 {
    match c {
        Some(_) => 1,
        None => 0,
    }
}

pub open spec fn column_body(c: Option<usize>) -> Seq<u8> {
    match c {
        Some(x) => enc_u64(x as u64),
        None => Seq::empty(),
    }
}

pub proof fn lemma_pos_split(p: PengPosition)
    ensures
        enc_pos(p) == enc_u64(p.id as u64) + (enc_u64(p.line as u64) + (seq![column_tag(p.column)]
            + column_body(p.column))),
{
    assert(enc_pos(p) =~= enc_u64(p.id as u64) + (enc_u64(p.line as u64) + (seq![
        column_tag(p.column),
    ] + column_body(p.column))));
}

pub proof fn lemma_opcode_split(o: OpcodeV)
    ensures
        enc_opcode(o) == seq![o.tag] + enc_arg(o.arg),
{
}

pub open spec fn value_tag(v: ValueV) -> u8 {
    match v {
        ValueV::Cell(_) => 0,
        ValueV::String(_) => 1,
        ValueV::Object(_) => 2,
        ValueV::Vector(_) => 3,
        ValueV::Type(_) => 4,
        ValueV::Module(_) => 5,
        ValueV::Function { .. } => 6,
        ValueV::Operation(_) => 7,
    }
}

pub open spec fn value_body(v: ValueV) -> Seq<u8> {
    match v {
        ValueV::Cell(c) => enc_cell(c),
        ValueV::String(s) => enc_text(s),
        ValueV::Object(f) => enc_fields(f),
        ValueV::Vector(b) => binded_section(b),
        ValueV::Type(t) => enc_type(t),
        ValueV::Module(f) => enc_fields(f),
        ValueV::Function { code, params } => enc_params(params) + enc_code(code),
        ValueV::Operation(code) => enc_code(code),
    }
}

pub proof fn lemma_value_split(v: ValueV)
    ensures
        enc_value(v) == seq![value_tag(v)] + value_body(v),
{
    assert(enc_value(v) =~= seq![value_tag(v)] + value_body(v));
}

} // verus!
