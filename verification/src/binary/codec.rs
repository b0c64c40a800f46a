use vstd::prelude::*;
use vstd::string::StringExecFns;
use crate::binary::encoding::{
    enc_binded, enc_cell, enc_code, enc_entry_kind, enc_field, enc_fields, enc_file, enc_header,
    enc_global, enc_heap_entry, enc_init, enc_len, enc_list, enc_opcode, enc_params, enc_pos,
    enc_ref, enc_text, enc_type, enc_u16, enc_u32, enc_u64, enc_value, enc_values,
    lemma_enc_list_push, lemma_enc_values_push, is_prefix, lemma_prefix_concat, lemma_prefix_front,
    lemma_prefix_same, lemma_prefix_self, lemma_fixed_lens, lemma_u16_injective, lemma_u32_injective,
    lemma_u64_injective, lemma_list_step, lemma_values_step, lemma_prefix_tag, lemma_prefix_len,
    lemma_prefix_first, cell_tag, cell_body, lemma_cell_split, binded_tag, binded_cell,
    lemma_binded_split, lemma_enc_cell_nonempty, lemma_enc_text_len, type_tag, type_body,
    lemma_type_split, column_tag, column_body, lemma_pos_split, lemma_opcode_split, enc_arg,
    ops_section, pos_section, refs_section, binded_section, value_tag, value_body, lemma_value_split,
    consts_section, params_tag, params_count, lemma_params_split, lemma_enc_values_len,
    heap_section, globals_section, enc_endian,
};
use crate::binary::format::{
    PengBinaryBindedCell, PengBinaryBytecode, PengBinaryCell, PengBinaryEntryKind, PengBinaryFile,
    PengBinaryGlobal, PengBinaryHeapId, PengBinaryHeapValue, PengBinaryOpcode, PengBinaryRef,
    PengBinaryType, PengBinaryValue,
};
use crate::binary::header::{PengBinaryEndian, PengBinaryHeader};
use crate::binary::model::{
    init_view, code_wf, value_wf, values_wf, lemma_values_wf_index, lemma_values_view_len, file_wf, valid_file,
    lemma_value_view_wf, code_error, file_error, first_error, global_check, heap_check, heap_indices,
    heap_entry_error, lemma_first_error, opcode_check, opcode_error, using_check, value_error,
    binded_view, cell_view, code_view, field_view, fields_view, file_view, global_view,
    heap_value_view, opcode_view, ref_view, type_view, value_view, values_view, ArgV, BindedV, CellV,
    CodeV, FileV, TypeV,
    GlobalV, OpcodeV, RefV, ValueV,
};
use crate::error::PengError;
use crate::function::PengBytecodeFunctionParams;
use crate::position::PengPosition;

verus! {

/// The error for a binary that cannot be read or written: `invalid Penguin binary: ` and `s`.
fn binary_invalid_state_error(s: &str) -> (res: PengError)
    ensures
        res matches PengError::InvalidState(m) && m@ == "invalid Penguin binary: "@ + s@,
{
    let mut m = String::from_str("invalid Penguin binary: ");
    m.append(s);
    PengError::InvalidState(m)
}

/// The bytes written so far.
struct W {
    b: Vec<u8>,
}

impl W {
    fn put(&mut self, bytes: &[u8])
        ensures
            final(self).b@ == old(self).b@ + bytes@,
    {
        let mut i: usize = 0;
        while i < bytes.len()
            invariant
                i <= bytes@.len(),
                self.b@ == old(self).b@ + bytes@.subrange(0, i as int),
            decreases bytes@.len() - i,
        {
            self.b.push(bytes[i]);
            i = i + 1;
            assert(self.b@ =~= old(self).b@ + bytes@.subrange(0, i as int));
        }
        assert(bytes@.subrange(0, i as int) =~= bytes@);
    }

    fn u8(&mut self, v: u8)
        ensures
            final(self).b@ == old(self).b@.push(v),
    {
        self.b.push(v)
    }

    fn u16(&mut self, v: u16)
        ensures
            final(self).b@ == old(self).b@ + enc_u16(v),
    {
        let bytes = vstd::bytes::u16_to_le_bytes(v);
        self.put(bytes.as_slice())
    }

    fn u32(&mut self, v: u32)
        ensures
            final(self).b@ == old(self).b@ + enc_u32(v),
    {
        let bytes = vstd::bytes::u32_to_le_bytes(v);
        self.put(bytes.as_slice())
    }

    fn u64(&mut self, v: u64)
        ensures
            final(self).b@ == old(self).b@ + enc_u64(v),
    {
        let bytes = vstd::bytes::u64_to_le_bytes(v);
        self.put(bytes.as_slice())
    }

    fn text(&mut self, v: &str)
        ensures
            final(self).b@ == old(self).b@ + enc_text(v@),
    {
        let bytes = v.as_bytes();
        self.u64(bytes.len() as u64);
        self.put(bytes);
        assert(self.b@ =~= old(self).b@ + enc_text(v@));
    }

    fn len(&mut self, v: usize)
        ensures
            final(self).b@ == old(self).b@ + enc_len(v as nat),
    {
        self.u64(v as u64)
    }
}

fn wr_ref(w: &mut W, v: &PengBinaryRef)
    ensures
        final(w).b@ == old(w).b@ + enc_ref(ref_view(*v)),
{
    match v {
        PengBinaryRef::Heap(v) => {
            w.u8(0);
            w.u32(v.0);
        },
        PengBinaryRef::External(v) => {
            w.u8(1);
            w.text(v.as_str());
        },
    }
    assert(w.b@ =~= old(w).b@ + enc_ref(ref_view(*v)));
}

fn wr_cell(w: &mut W, v: &PengBinaryCell)
    ensures
        final(w).b@ == old(w).b@ + enc_cell(cell_view(*v)),
{
    match v {
        PengBinaryCell::Nil => w.u8(0),
        PengBinaryCell::Int(v) => {
            w.u8(1);
            w.u64(*v as u64);
        },
        PengBinaryCell::Uint(v) => {
            w.u8(2);
            w.u64(*v);
        },
        PengBinaryCell::Float32(v) => {
            w.u8(3);
            w.u32(*v);
        },
        PengBinaryCell::Float64(v) => {
            w.u8(4);
            w.u64(*v);
        },
        PengBinaryCell::Byte(v) => {
            w.u8(5);
            w.u8(*v);
        },
        PengBinaryCell::Bool(v) => {
            w.u8(6);
            w.u8(if *v { 1 } else { 0 });
        },
        PengBinaryCell::Reference(v) => {
            w.u8(7);
            wr_ref(w, v);
        },
    }
    assert(w.b@ =~= old(w).b@ + enc_cell(cell_view(*v)));
}

fn wr_bound(w: &mut W, v: &PengBinaryBindedCell)
    ensures
        final(w).b@ == old(w).b@ + enc_binded(binded_view(*v)),
{
    match v {
        PengBinaryBindedCell::Mutable(v) => {
            w.u8(0);
            wr_cell(w, v);
        },
        PengBinaryBindedCell::Immutable(v) => {
            w.u8(1);
            wr_cell(w, v);
        },
    }
    assert(w.b@ =~= old(w).b@ + enc_binded(binded_view(*v)));
}

fn wr_fields(w: &mut W, v: &Vec<(String, PengBinaryBindedCell)>)
    ensures
        final(w).b@ == old(w).b@ + enc_fields(fields_view(v@)),
{
    let ghost f = |x: (Seq<char>, BindedV)| enc_field(x);
    w.len(v.len());
    let ghost start = w.b@;
    let mut i: usize = 0;
    while i < v.len()
        invariant
            i <= v@.len(),
            w.b@ == start + enc_list(fields_view(v@).take(i as int), f),
            f == (|x: (Seq<char>, BindedV)| enc_field(x)),
        decreases v@.len() - i,
    {
        proof {
            assert(fields_view(v@).take(i + 1) =~= fields_view(v@).take(i as int).push(
                field_view(v@[i as int]),
            ));
            lemma_enc_list_push(fields_view(v@).take(i as int), field_view(v@[i as int]), f);
        }
        w.text(v[i].0.as_str());
        wr_bound(w, &v[i].1);
        i = i + 1;
        assert(w.b@ =~= start + enc_list(fields_view(v@).take(i as int), f));
    }
    assert(fields_view(v@).take(i as int) =~= fields_view(v@));
    assert(w.b@ =~= old(w).b@ + enc_fields(fields_view(v@)));
}

} // verus!

verus! {

fn wr_type(w: &mut W, v: &PengBinaryType)
    ensures
        final(w).b@ == old(w).b@ + enc_type(type_view(*v)),
    decreases *v,
{
    let t: u8 = match v {
        PengBinaryType::Nil => 0,
        PengBinaryType::Int => 1,
        PengBinaryType::Uint => 2,
        PengBinaryType::Float32 => 3,
        PengBinaryType::Float64 => 4,
        PengBinaryType::Byte => 5,
        PengBinaryType::Bool => 6,
        PengBinaryType::String => 7,
        PengBinaryType::Object => 8,
        PengBinaryType::Vector(_) => 9,
        PengBinaryType::Type => 10,
        PengBinaryType::Module => 11,
        PengBinaryType::Function => 12,
        PengBinaryType::Operator => 13,
        PengBinaryType::Thread => 14,
        PengBinaryType::Custom(_) => 15,
        PengBinaryType::Any => 16,
    };
    w.u8(t);
    match v {
        PengBinaryType::Vector(x) => wr_type(w, x),
        PengBinaryType::Custom(x) => wr_fields(w, x),
        _ => {},
    }
    assert(w.b@ =~= old(w).b@ + enc_type(type_view(*v)));
}

fn wr_instr(w: &mut W, i: &PengBinaryOpcode)
    ensures
        final(w).b@ == old(w).b@ + enc_opcode(opcode_view(*i)),
{
    let (t, num, text, rf): (u8, Option<usize>, Option<&String>, Option<&PengBinaryRef>) = match i {
        PengBinaryOpcode::PushConst(v) => (0, Some(*v), None, None),
        PengBinaryOpcode::MakeImmutable => (1, None, None, None),
        PengBinaryOpcode::PushLocal(v) => (2, Some(*v), None, None),
        PengBinaryOpcode::ReserveLocal(v) => (3, Some(*v), None, None),
        PengBinaryOpcode::StoreLocal(v) => (4, Some(*v), None, None),
        PengBinaryOpcode::PushHeap(v) => (5, None, None, Some(v)),
        PengBinaryOpcode::PushHeapRef(v) => (6, None, None, Some(v)),
        PengBinaryOpcode::StoreHeap => (7, None, None, None),
        PengBinaryOpcode::PushString(v) => (8, None, Some(v), None),
        PengBinaryOpcode::CreateEmptyObject => (9, None, None, None),
        PengBinaryOpcode::CreateEmptyModule => (10, None, None, None),
        PengBinaryOpcode::CreateVector(v) => (11, Some(*v), None, None),
        PengBinaryOpcode::CreateSuperType(v) => (12, Some(*v), None, None),
        PengBinaryOpcode::CreateTypedObject => (14, None, None, None),
        PengBinaryOpcode::Convert => (15, None, None, None),
        PengBinaryOpcode::Duplicate => (16, None, None, None),
        PengBinaryOpcode::Pop => (17, None, None, None),
        PengBinaryOpcode::Swap => (18, None, None, None),
        PengBinaryOpcode::Add => (19, None, None, None),
        PengBinaryOpcode::Subtract => (20, None, None, None),
        PengBinaryOpcode::Multiply => (21, None, None, None),
        PengBinaryOpcode::Divide => (22, None, None, None),
        PengBinaryOpcode::Power => (23, None, None, None),
        PengBinaryOpcode::Remainder => (24, None, None, None),
        PengBinaryOpcode::Negate => (25, None, None, None),
        PengBinaryOpcode::Concat => (26, None, None, None),
        PengBinaryOpcode::And => (27, None, None, None),
        PengBinaryOpcode::Or => (28, None, None, None),
        PengBinaryOpcode::Not => (29, None, None, None),
        PengBinaryOpcode::Equals => (30, None, None, None),
        PengBinaryOpcode::NotEquals => (31, None, None, None),
        PengBinaryOpcode::GreaterThan => (32, None, None, None),
        PengBinaryOpcode::GreaterEqualsThan => (33, None, None, None),
        PengBinaryOpcode::LessThan => (34, None, None, None),
        PengBinaryOpcode::LessEqualsThan => (35, None, None, None),
        PengBinaryOpcode::OperationCall => (36, None, None, None),
        PengBinaryOpcode::TryOperationCall => (37, None, None, None),
        PengBinaryOpcode::FunctionCall(v) => (38, Some(*v), None, None),
        PengBinaryOpcode::FunctionCallSpread(v) => (39, Some(*v), None, None),
        PengBinaryOpcode::TryFunctionCall(v) => (40, Some(*v), None, None),
        PengBinaryOpcode::TryFunctionCallSpread(v) => (41, Some(*v), None, None),
        PengBinaryOpcode::GetIndex => (42, None, None, None),
        PengBinaryOpcode::SetIndex => (43, None, None, None),
        PengBinaryOpcode::GetAttribute(v) => (44, None, Some(v), None),
        PengBinaryOpcode::SetAttribute(v) => (45, None, Some(v), None),
        PengBinaryOpcode::GetMember(v) => (46, None, Some(v), None),
        PengBinaryOpcode::SetMember(v) => (47, None, Some(v), None),
        PengBinaryOpcode::Jump(v) => (48, Some(*v), None, None),
        PengBinaryOpcode::JumpIfTrue(v) => (49, Some(*v), None, None),
        PengBinaryOpcode::JumpIfFalse(v) => (50, Some(*v), None, None),
        PengBinaryOpcode::Return => (51, None, None, None),
    };
    w.u8(t);
    if let Some(v) = num {
        w.u64(v as u64)
    }
    if let Some(v) = text {
        w.text(v.as_str())
    }
    if let Some(v) = rf {
        wr_ref(w, v)
    }
    assert(w.b@ =~= old(w).b@ + enc_opcode(opcode_view(*i)));
}

fn wr_pos(w: &mut W, v: &PengPosition)
    ensures
        final(w).b@ == old(w).b@ + enc_pos(*v),
{
    w.u64(v.id as u64);
    w.u64(v.line as u64);
    match v.column {
        Some(x) => {
            w.u8(1);
            w.u64(x as u64);
        },
        None => w.u8(0),
    }
    assert(w.b@ =~= old(w).b@ + enc_pos(*v));
}

#[verifier::rlimit(30)]
fn wr_code(w: &mut W, v: &PengBinaryBytecode)
    ensures
        final(w).b@ == old(w).b@ + enc_code(code_view(*v)),
    decreases *v, 0nat,
{
    let ghost c = code_view(*v);
    let ghost fo = |o: OpcodeV| enc_opcode(o);
    let ghost fp = |p: PengPosition| enc_pos(p);
    let ghost fr = |r: RefV| enc_ref(r);
    w.len(v.bytecode.len());
    let ghost s1 = w.b@;
    let mut i: usize = 0;
    while i < v.bytecode.len()
        invariant
            i <= v.bytecode@.len(),
            c == code_view(*v),
            fo == (|o: OpcodeV| enc_opcode(o)),
            w.b@ == s1 + enc_list(c.bytecode.take(i as int), fo),
        decreases v.bytecode@.len() - i,
    {
        proof {
            assert(c.bytecode.take(i + 1) =~= c.bytecode.take(i as int).push(
                opcode_view(v.bytecode@[i as int]),
            ));
            lemma_enc_list_push(c.bytecode.take(i as int), opcode_view(v.bytecode@[i as int]), fo);
        }
        wr_instr(w, &v.bytecode[i]);
        i = i + 1;
        assert(w.b@ =~= s1 + enc_list(c.bytecode.take(i as int), fo));
    }
    assert(c.bytecode.take(i as int) =~= c.bytecode);
    w.len(v.positions.len());
    let ghost s2 = w.b@;
    let mut i: usize = 0;
    while i < v.positions.len()
        invariant
            i <= v.positions@.len(),
            c == code_view(*v),
            fp == (|p: PengPosition| enc_pos(p)),
            w.b@ == s2 + enc_list(c.positions.take(i as int), fp),
        decreases v.positions@.len() - i,
    {
        proof {
            assert(c.positions.take(i + 1) =~= c.positions.take(i as int).push(v.positions@[i as int]));
            lemma_enc_list_push(c.positions.take(i as int), v.positions@[i as int], fp);
        }
        wr_pos(w, &v.positions[i]);
        i = i + 1;
        assert(w.b@ =~= s2 + enc_list(c.positions.take(i as int), fp));
    }
    assert(c.positions.take(i as int) =~= c.positions);
    w.len(v.consts.len());
    let ghost s3 = w.b@;
    proof {
        crate::binary::model::lemma_values_view_len(v.consts@);
    }
    let mut i: usize = 0;
    while i < v.consts.len()
        invariant
            i <= v.consts@.len(),
            c == code_view(*v),
            c.consts.len() == v.consts@.len(),
            w.b@ == s3 + enc_values(c.consts.take(i as int)),
        decreases v.consts@.len() - i,
    {
        proof {
            crate::binary::model::lemma_values_view_index(v.consts@, i as int);
            assert(c.consts.take(i + 1) =~= c.consts.take(i as int).push(
                value_view(v.consts@[i as int]),
            ));
            lemma_enc_values_push(c.consts.take(i as int), value_view(v.consts@[i as int]));
        }
        wr_value(w, &v.consts[i]);
        i = i + 1;
        assert(w.b@ =~= s3 + enc_values(c.consts.take(i as int)));
    }
    assert(c.consts.take(i as int) =~= c.consts);
    w.len(v.using_values.len());
    let ghost s4 = w.b@;
    let mut i: usize = 0;
    while i < v.using_values.len()
        invariant
            i <= v.using_values@.len(),
            c == code_view(*v),
            fr == (|r: RefV| enc_ref(r)),
            w.b@ == s4 + enc_list(c.using_values.take(i as int), fr),
        decreases v.using_values@.len() - i,
    {
        proof {
            assert(c.using_values.take(i + 1) =~= c.using_values.take(i as int).push(
                ref_view(v.using_values@[i as int]),
            ));
            lemma_enc_list_push(c.using_values.take(i as int), ref_view(v.using_values@[i as int]), fr);
        }
        wr_ref(w, &v.using_values[i]);
        i = i + 1;
        assert(w.b@ =~= s4 + enc_list(c.using_values.take(i as int), fr));
    }
    assert(c.using_values.take(i as int) =~= c.using_values);
    assert(w.b@ =~= old(w).b@ + enc_code(code_view(*v)));
}

fn wr_value(w: &mut W, v: &PengBinaryValue)
    ensures
        final(w).b@ == old(w).b@ + enc_value(value_view(*v)),
    decreases *v, 1nat,
{
    match v {
        PengBinaryValue::Cell(x) => {
            w.u8(0);
            wr_cell(w, x);
        },
        PengBinaryValue::String(x) => {
            w.u8(1);
            w.text(x.as_str());
        },
        PengBinaryValue::Object(x) => {
            w.u8(2);
            wr_fields(w, x);
        },
        PengBinaryValue::Vector(x) => {
            let ghost fb = |b: BindedV| enc_binded(b);
            let ghost xs = x@.map_values(|b: PengBinaryBindedCell| binded_view(b));
            w.u8(3);
            w.len(x.len());
            let ghost s = w.b@;
            let mut i: usize = 0;
            while i < x.len()
                invariant
                    i <= x@.len(),
                    fb == (|b: BindedV| enc_binded(b)),
                    xs == x@.map_values(|b: PengBinaryBindedCell| binded_view(b)),
                    w.b@ == s + enc_list(xs.take(i as int), fb),
                decreases x@.len() - i,
            {
                proof {
                    assert(xs.take(i + 1) =~= xs.take(i as int).push(binded_view(x@[i as int])));
                    lemma_enc_list_push(xs.take(i as int), binded_view(x@[i as int]), fb);
                }
                wr_bound(w, &x[i]);
                i = i + 1;
                assert(w.b@ =~= s + enc_list(xs.take(i as int), fb));
            }
            assert(xs.take(i as int) =~= xs);
        },
        PengBinaryValue::Type(x) => {
            w.u8(4);
            wr_type(w, x);
        },
        PengBinaryValue::Module(x) => {
            w.u8(5);
            wr_fields(w, x);
        },
        PengBinaryValue::Function { code, params } => {
            w.u8(6);
            match params {
                PengBytecodeFunctionParams::Fixed(v) => {
                    w.u8(0);
                    w.u64(*v as u64);
                },
                PengBytecodeFunctionParams::Variadic(v) => {
                    w.u8(1);
                    w.u64(*v as u64);
                },
            }
            wr_code(w, code);
        },
        PengBinaryValue::Operation(x) => {
            w.u8(7);
            wr_code(w, x);
        },
    }
    assert(w.b@ =~= old(w).b@ + enc_value(value_view(*v)));
}

} // verus!

verus! {

fn valid_ref(v: &PengBinaryRef, n: usize) -> (res: bool)
    ensures
        res == crate::binary::model::valid_ref(ref_view(*v), n as nat),
{
    match v {
        PengBinaryRef::Heap(v) => (v.0 as usize) < n,
        PengBinaryRef::External(s) => s.as_str().unicode_len() > 0,
    }
}

fn validate_code(v: &PengBinaryBytecode, n: usize) -> (res: Result<(), PengError>)
    ensures
        res is Ok <==> crate::binary::model::valid_code(code_view(*v), n as nat),
        res matches Err(e) ==> e is InvalidState,
        res is Ok <==> code_error(code_view(*v), n as nat) is None,
        code_error(code_view(*v), n as nat) matches Some(m) ==> (res matches Err(PengError::InvalidState(s)) && s@
            == "invalid Penguin binary: "@ + m),
{
    let ghost c = code_view(*v);
    proof {
        crate::binary::model::lemma_values_view_len(v.consts@);
    }
    if v.positions.len() != 0 && v.positions.len() != v.bytecode.len() {
        return Err(binary_invalid_state_error("positions length differs from bytecode length"));
    }
    let mut k: usize = 0;
    while k < v.bytecode.len()
        invariant
            k <= v.bytecode@.len(),
            c == code_view(*v),
            c.consts.len() == v.consts@.len(),
            forall|j: int|
                0 <= j < k ==> crate::binary::model::valid_opcode(#[trigger] c.bytecode[j], c, n as nat),
            forall|j: int| 0 <= j < k ==> opcode_check(c, n as nat)(#[trigger] c.bytecode[j]) is None,
            !(c.positions.len() != 0 && c.positions.len() != c.bytecode.len()),
        decreases v.bytecode@.len() - k,
    {
        let i = &v.bytecode[k];
        assert(c.bytecode[k as int] == opcode_view(*i));
        proof {
            lemma_first_error(c.bytecode, opcode_check(c, n as nat), k as int);
        }
        match i {
            PengBinaryOpcode::PushConst(x) => {
                if *x >= v.consts.len() {
                    return Err(binary_invalid_state_error("constant index out of range"));
                }
            },
            PengBinaryOpcode::Jump(x)
            | PengBinaryOpcode::JumpIfTrue(x)
            | PengBinaryOpcode::JumpIfFalse(x) => {
                if *x > v.bytecode.len() {
                    return Err(binary_invalid_state_error("jump target out of range"));
                }
            },
            PengBinaryOpcode::PushHeap(x) | PengBinaryOpcode::PushHeapRef(x) => {
                if !valid_ref(x, n) {
                    return Err(binary_invalid_state_error("instruction heap id out of range"));
                }
            },
            _ => {},
        }
        k = k + 1;
    }
    proof {
        lemma_first_error(c.bytecode, opcode_check(c, n as nat), c.bytecode.len() as int);
    }
    let mut k: usize = 0;
    while k < v.using_values.len()
        invariant
            k <= v.using_values@.len(),
            c == code_view(*v),
            c.consts.len() == v.consts@.len(),
            forall|j: int|
                0 <= j < v.bytecode@.len() ==> crate::binary::model::valid_opcode(
                    #[trigger] c.bytecode[j],
                    c,
                    n as nat,
                ),
            forall|j: int|
                0 <= j < k ==> crate::binary::model::valid_ref(#[trigger] c.using_values[j], n as nat),
            first_error(c.bytecode, opcode_check(c, n as nat)) is None,
            forall|j: int| 0 <= j < k ==> using_check(n as nat)(#[trigger] c.using_values[j]) is None,
            !(c.positions.len() != 0 && c.positions.len() != c.bytecode.len()),
        decreases v.using_values@.len() - k,
    {
        assert(c.using_values[k as int] == ref_view(v.using_values@[k as int]));
        proof {
            lemma_first_error(c.using_values, using_check(n as nat), k as int);
        }
        if !valid_ref(&v.using_values[k], n) {
            return Err(binary_invalid_state_error("using value heap id out of range"));
        }
        k = k + 1;
    }
    proof {
        lemma_first_error(c.using_values, using_check(n as nat), c.using_values.len() as int);
    }
    Ok(())
}

fn validate_value(v: &PengBinaryValue, n: usize) -> (res: Result<(), PengError>)
    ensures
        res is Ok <==> crate::binary::model::valid_value(value_view(*v), n as nat),
        res matches Err(e) ==> e is InvalidState,
        res is Ok <==> value_error(value_view(*v), n as nat) is None,
        value_error(value_view(*v), n as nat) matches Some(m) ==> (res matches Err(PengError::InvalidState(s)) && s@
            == "invalid Penguin binary: "@ + m),
{
    match v {
        PengBinaryValue::Function { code, .. } => validate_code(code, n),
        PengBinaryValue::Operation(code) => validate_code(code, n),
        _ => Ok(()),
    }
}

/// Checks that `file` can be loaded (see `valid_file`).
pub fn peng_binary_validate_file(file: &PengBinaryFile) -> (res: Result<(), PengError>)
    ensures
        res is Ok <==> crate::binary::model::valid_file(file_view(*file)),
        res matches Err(e) ==> e is InvalidState,
        res is Ok <==> file_error(file_view(*file)) is None,
        file_error(file_view(*file)) matches Some(m) ==> (res matches Err(PengError::InvalidState(s)) && s@
            == "invalid Penguin binary: "@ + m),
{
    let ghost f = file_view(*file);
    let magic = file.header.magic;
    if !(magic[0] == 112u8 && magic[1] == 101u8 && magic[2] == 110u8 && magic[3] == 103u8) {
        proof {
            if f.header.magic@ == crate::binary::header::PENG_BINARY_MAGIC@ {
                assert(magic@[0] == 112u8);
                assert(magic@[1] == 101u8);
                assert(magic@[2] == 110u8);
                assert(magic@[3] == 103u8);
            }
        }
        return Err(binary_invalid_state_error("invalid magic"));
    }
    proof {
        assert(magic@ =~= crate::binary::header::PENG_BINARY_MAGIC@);
    }
    if file.header.format_version != crate::binary::header::PENG_BINARY_FORMAT_VERSION {
        return Err(binary_invalid_state_error("unsupported format version"));
    }
    match file.header.endian {
        PengBinaryEndian::Little => {},
        PengBinaryEndian::Big => {
            return Err(binary_invalid_state_error("unsupported endian"));
        },
    }
    let n = file.heap.len();
    let mut index: usize = 0;
    while index < file.heap.len()
        invariant
            index <= file.heap@.len(),
            n == file.heap@.len(),
            f == file_view(*file),
            forall|i: int|
                0 <= i < index ==> (#[trigger] f.heap[i]).0 == i && crate::binary::model::valid_value(
                    f.heap[i].1,
                    f.heap.len(),
                ),
            forall|i: int| 0 <= i < index ==> heap_check(f)(#[trigger] heap_indices(f)[i]) is None,
            f.header.magic@ == crate::binary::header::PENG_BINARY_MAGIC@,
            f.header.format_version == crate::binary::header::PENG_BINARY_FORMAT_VERSION,
            f.header.endian == crate::binary::header::PengBinaryEndian::Little,
        decreases file.heap@.len() - index,
    {
        let x = &file.heap[index];
        assert(f.heap[index as int] == heap_value_view(*x));
        proof {
            assert(heap_indices(f)[index as int] == index);
            lemma_first_error(heap_indices(f), heap_check(f), index as int);
        }
        if x.id.0 as usize != index {
            return Err(binary_invalid_state_error("heap ids must be contiguous and ordered"));
        }
        match validate_value(&x.value, n) {
            Ok(()) => {},
            Err(e) => return Err(e),
        }
        index = index + 1;
    }
    proof {
        assert forall|i: int| 0 <= i < index implies heap_check(f)(#[trigger] heap_indices(f)[i]) is None by {}
        lemma_first_error(heap_indices(f), heap_check(f), index as int);
    }
    let mut k: usize = 0;
    while k < file.globals.len()
        invariant
            k <= file.globals@.len(),
            n == file.heap@.len(),
            f == file_view(*file),
            forall|j: int|
                0 <= j < k ==> crate::binary::model::valid_global(#[trigger] f.globals[j], f.heap.len()),
            forall|j: int| 0 <= j < k ==> global_check(f.heap.len())(#[trigger] f.globals[j]) is None,
            first_error(heap_indices(f), heap_check(f)) is None,
            f.header.magic@ == crate::binary::header::PENG_BINARY_MAGIC@,
            f.header.format_version == crate::binary::header::PENG_BINARY_FORMAT_VERSION,
            f.header.endian == crate::binary::header::PengBinaryEndian::Little,
        decreases file.globals@.len() - k,
    {
        let x = &file.globals[k];
        assert(f.globals[k as int] == global_view(*x));
        proof {
            lemma_first_error(f.globals, global_check(f.heap.len()), k as int);
        }
        if x.name.as_str().unicode_len() == 0 || !valid_ref(&x.value, n) {
            return Err(binary_invalid_state_error("invalid global"));
        }
        k = k + 1;
    }
    proof {
        lemma_first_error(f.globals, global_check(f.heap.len()), k as int);
    }
    if let Some(x) = &file.init {
        assert(f.init == Some(ref_view(*x)));
        if !valid_ref(x, n) {
            return Err(binary_invalid_state_error("invalid init reference"));
        }
    }
    Ok(())
}

/// The bytes of `file`, if it is valid.
pub fn peng_binary_encode(file: &PengBinaryFile) -> (res: Result<Vec<u8>, PengError>)
    ensures
        res is Ok <==> crate::binary::model::valid_file(file_view(*file)),
        res matches Ok(b) ==> b@ == enc_file(file_view(*file)),
        res matches Err(e) ==> e is InvalidState,
        file_error(file_view(*file)) matches Some(m) ==> (res matches Err(PengError::InvalidState(s)) && s@
            == "invalid Penguin binary: "@ + m),
{
    match peng_binary_validate_file(file) {
        Ok(()) => {},
        Err(e) => return Err(e),
    }
    let ghost f = file_view(*file);
    let mut w = W { b: Vec::new() };
    let magic = file.header.magic;
    w.u8(magic[0]);
    w.u8(magic[1]);
    w.u8(magic[2]);
    w.u8(magic[3]);
    assert(w.b@ =~= magic@);
    w.u16(file.header.format_version);
    w.u8(file.header.arch_bits);
    w.u8(
        match file.header.endian {
            PengBinaryEndian::Little => 0,
            PengBinaryEndian::Big => 1,
        },
    );
    w.u32(file.header.flags);
    assert(w.b@ =~= enc_header(f.header));
    w.u8(
        match file.entry_kind {
            PengBinaryEntryKind::Program => 0,
            PengBinaryEntryKind::Script => 1,
        },
    );
    w.len(file.heap.len());
    let ghost fh = |e: (u32, ValueV)| enc_heap_entry(e);
    let ghost s1 = w.b@;
    let mut i: usize = 0;
    while i < file.heap.len()
        invariant
            i <= file.heap@.len(),
            f == file_view(*file),
            fh == (|e: (u32, ValueV)| enc_heap_entry(e)),
            w.b@ == s1 + enc_list(f.heap.take(i as int), fh),
        decreases file.heap@.len() - i,
    {
        proof {
            assert(f.heap.take(i + 1) =~= f.heap.take(i as int).push(f.heap[i as int]));
            lemma_enc_list_push(f.heap.take(i as int), f.heap[i as int], fh);
        }
        let x = &file.heap[i];
        w.u32(x.id.0);
        wr_value(&mut w, &x.value);
        i = i + 1;
        assert(w.b@ =~= s1 + enc_list(f.heap.take(i as int), fh));
    }
    assert(f.heap.take(i as int) =~= f.heap);
    w.len(file.globals.len());
    let ghost fg = |g: GlobalV| enc_global(g);
    let ghost s2 = w.b@;
    let mut i: usize = 0;
    while i < file.globals.len()
        invariant
            i <= file.globals@.len(),
            f == file_view(*file),
            fg == (|g: GlobalV| enc_global(g)),
            w.b@ == s2 + enc_list(f.globals.take(i as int), fg),
        decreases file.globals@.len() - i,
    {
        proof {
            assert(f.globals.take(i + 1) =~= f.globals.take(i as int).push(f.globals[i as int]));
            lemma_enc_list_push(f.globals.take(i as int), f.globals[i as int], fg);
        }
        let x = &file.globals[i];
        w.text(x.name.as_str());
        w.u8(if x.mutable { 1 } else { 0 });
        wr_ref(&mut w, &x.value);
        i = i + 1;
        assert(w.b@ =~= s2 + enc_list(f.globals.take(i as int), fg));
    }
    assert(f.globals.take(i as int) =~= f.globals);
    match &file.init {
        Some(v) => {
            w.u8(1);
            wr_ref(&mut w, v);
        },
        None => w.u8(0),
    }
    assert(w.b@ =~= enc_file(f));
    Ok(w.b)
}

} // verus!

verus! {

/// `std::str::from_utf8`. Its documentation: the bytes as a string slice when they
/// are valid UTF-8, an error otherwise. The contract claims exactly that, with the
/// characters being the UTF-8 decoding of the bytes.
#[verifier::external_body]
fn str_from_utf8(bytes: &[u8]) -> (res: Option<&str>)
    ensures
        res is Some <==> vstd::utf8::valid_utf8(bytes@),
        res matches Some(s) ==> s@ == vstd::utf8::decode_utf8(bytes@),
{
    std::str::from_utf8(bytes).ok()
}

/// Reads a binary from its first byte on.
struct R<'a> {
    b: &'a [u8],
    p: usize,
}

impl<'a> R<'a> {
    spec fn wf(&self) -> bool {
        self.p <= self.b@.len() && self.b@.len() <= usize::MAX
    }

    /// The bytes not read yet.
    spec fn rest(&self) -> Seq<u8> {
        self.b@.subrange(self.p as int, self.b@.len() as int)
    }

    fn take(&mut self, n: usize) -> (res: Result<&'a [u8], PengError>)
        requires
            old(self).wf(),
        ensures
            final(self).wf(),
            final(self).b == old(self).b,
            res is Ok <==> n <= old(self).rest().len(),
            res matches Ok(v) ==> old(self).rest() == v@ + final(self).rest() && v@.len() == n,
            res matches Err(e) ==> e is InvalidState,
    {
        if n > self.b.len() - self.p {
            return Err(binary_invalid_state_error("unexpected end of file"));
        }
        let b = self.b;
        let v = &b[self.p..self.p + n];
        self.p = self.p + n;
        assert(old(self).rest() =~= v@ + self.rest());
        Ok(v)
    }

    fn u8(&mut self) -> (res: Result<u8, PengError>)
        requires
            old(self).wf(),
        ensures
            final(self).wf(),
            final(self).b == old(self).b,
            res is Ok <==> old(self).rest().len() >= 1,
            res matches Ok(x) ==> old(self).rest() == seq![x] + final(self).rest(),
            res matches Err(e) ==> e is InvalidState,
    {
        match self.take(1) {
            Ok(v) => {
                assert(v@ =~= seq![v[0]]);
                Ok(v[0])
            },
            Err(e) => Err(e),
        }
    }

    fn u16(&mut self) -> (res: Result<u16, PengError>)
        requires
            old(self).wf(),
        ensures
            final(self).wf(),
            final(self).b == old(self).b,
            res is Ok <==> old(self).rest().len() >= 2,
            res matches Ok(x) ==> old(self).rest() == enc_u16(x) + final(self).rest(),
            res matches Err(e) ==> e is InvalidState,
    {
        match self.take(2) {
            Ok(v) => {
                let x = vstd::bytes::u16_from_le_bytes(v);
                proof {
                    vstd::bytes::lemma_auto_spec_u16_to_from_le_bytes();
                    assert(enc_u16(x) == v@);
                }
                Ok(x)
            },
            Err(e) => Err(e),
        }
    }

    fn u32(&mut self) -> (res: Result<u32, PengError>)
        requires
            old(self).wf(),
        ensures
            final(self).wf(),
            final(self).b == old(self).b,
            res is Ok <==> old(self).rest().len() >= 4,
            res matches Ok(x) ==> old(self).rest() == enc_u32(x) + final(self).rest(),
            res matches Err(e) ==> e is InvalidState,
    {
        match self.take(4) {
            Ok(v) => {
                let x = vstd::bytes::u32_from_le_bytes(v);
                proof {
                    vstd::bytes::lemma_auto_spec_u32_to_from_le_bytes();
                    assert(enc_u32(x) == v@);
                }
                Ok(x)
            },
            Err(e) => Err(e),
        }
    }

    fn u64(&mut self) -> (res: Result<u64, PengError>)
        requires
            old(self).wf(),
        ensures
            final(self).wf(),
            final(self).b == old(self).b,
            res is Ok <==> old(self).rest().len() >= 8,
            res matches Ok(x) ==> old(self).rest() == enc_u64(x) + final(self).rest(),
            res matches Err(e) ==> e is InvalidState,
    {
        match self.take(8) {
            Ok(v) => {
                let x = vstd::bytes::u64_from_le_bytes(v);
                proof {
                    vstd::bytes::lemma_auto_spec_u64_to_from_le_bytes();
                    assert(enc_u64(x) == v@);
                }
                Ok(x)
            },
            Err(e) => Err(e),
        }
    }

    fn len(&mut self) -> (res: Result<usize, PengError>)
        requires
            old(self).wf(),
        ensures
            final(self).wf(),
            final(self).b == old(self).b,
            res matches Ok(n) ==> old(self).rest() == enc_len(n as nat) + final(self).rest(),
            forall|k: nat|
                k <= usize::MAX && #[trigger] is_prefix(enc_len(k), old(self).rest()) ==> (res matches Ok(
                    n,
                ) && n == k),
            res matches Err(e) ==> e is InvalidState,
    {
        let ghost s0 = self.rest();
        proof {
            lemma_fixed_lens();
        }
        match self.u64() {
            Ok(v) => {
                if v <= usize::MAX as u64 {
                    proof {
                        assert forall|k: nat|
                            k <= usize::MAX && #[trigger] is_prefix(enc_len(k), s0) implies v == k by {
                            lemma_fixed_lens();
                            lemma_fixed_lens();
                            lemma_prefix_same(enc_u64(v), enc_len(k), s0, self.rest());
                            lemma_u64_injective(v, k as u64);
                        }
                    }
                    Ok(v as usize)
                } else {
                    proof {
                        assert forall|k: nat|
                            k <= usize::MAX && #[trigger] is_prefix(enc_len(k), s0) implies false by {
                            lemma_fixed_lens();
                            lemma_fixed_lens();
                            lemma_prefix_same(enc_u64(v), enc_len(k), s0, self.rest());
                            lemma_u64_injective(v, k as u64);
                        }
                    }
                    Err(binary_invalid_state_error("length exceeds architecture"))
                }
            },
            Err(e) => {
                proof {
                    assert forall|k: nat|
                        k <= usize::MAX && #[trigger] is_prefix(enc_len(k), s0) implies false by {
                        lemma_fixed_lens();
                    }
                }
                Err(e)
            },
        }
    }

    fn text(&mut self) -> (res: Result<String, PengError>)
        requires
            old(self).wf(),
        ensures
            final(self).wf(),
            final(self).b == old(self).b,
            res matches Ok(s) ==> old(self).rest() == enc_text(s@) + final(self).rest(),
            forall|v: Seq<char>| #[trigger] is_prefix(enc_text(v), old(self).rest()) ==> (res matches Ok(s)
                && s@ == v),
            res matches Err(e) ==> e is InvalidState,
    {
        let ghost s0 = self.rest();
        let n = match self.len() {
            Ok(v) => v,
            Err(e) => {
                proof {
                    assert forall|v: Seq<char>| #[trigger] is_prefix(enc_text(v), s0) implies false by {
                        let u = vstd::utf8::encode_utf8(v);
                        lemma_prefix_front(enc_len(u.len()), u, s0);
                        lemma_fixed_lens();
                    }
                }
                return Err(e);
            },
        };
        let ghost s1 = self.rest();
        let bytes = match self.take(n) {
            Ok(v) => v,
            Err(e) => {
                proof {
                    assert forall|v: Seq<char>| #[trigger] is_prefix(enc_text(v), s0) implies false by {
                        let u = vstd::utf8::encode_utf8(v);
                        lemma_fixed_lens();
                        lemma_prefix_front(enc_len(u.len()), u, s0);
                        lemma_prefix_concat(enc_len(u.len()), u, s0, s1);
                    }
                }
                return Err(e);
            },
        };
        let ghost s2 = self.rest();
        match str_from_utf8(bytes) {
            Some(s) => {
                let res = s.to_owned();
                proof {
                    vstd::utf8::decode_utf8_encode_utf8(bytes@);
                    assert(s0 =~= enc_text(res@) + s2);
                    assert forall|v: Seq<char>| #[trigger] is_prefix(enc_text(v), s0) implies res@ == v by {
                        let u = vstd::utf8::encode_utf8(v);
                        lemma_fixed_lens();
                        lemma_prefix_front(enc_len(u.len()), u, s0);
                        lemma_prefix_concat(enc_len(u.len()), u, s0, s1);
                        lemma_prefix_same(bytes@, u, s1, s2);
                        vstd::utf8::encode_utf8_decode_utf8(v);
                    }
                }
                Ok(res)
            },
            None => {
                proof {
                    assert forall|v: Seq<char>| #[trigger] is_prefix(enc_text(v), s0) implies false by {
                        let u = vstd::utf8::encode_utf8(v);
                        lemma_fixed_lens();
                        lemma_prefix_front(enc_len(u.len()), u, s0);
                        lemma_prefix_concat(enc_len(u.len()), u, s0, s1);
                        lemma_prefix_same(bytes@, u, s1, s2);
                        vstd::utf8::encode_utf8_valid_utf8(v);
                    }
                }
                Err(binary_invalid_state_error("invalid UTF-8"))
            },
        }
    }
}

} // verus!

verus! {

fn rd_ref(r: &mut R) -> (res: Result<PengBinaryRef, PengError>)
    requires
        old(r).wf(),
    ensures
        final(r).wf(),
        final(r).b == old(r).b,
        res matches Ok(x) ==> old(r).rest() == enc_ref(ref_view(x)) + final(r).rest(),
        forall|v: RefV| #[trigger] is_prefix(enc_ref(v), old(r).rest()) ==> (res matches Ok(x)
            && ref_view(x) == v),
        res matches Err(e) ==> e is InvalidState,
{
    let ghost s0 = r.rest();
    let t = match r.u8() {
        Ok(t) => t,
        Err(e) => {
            proof {
                assert forall|v: RefV| #[trigger] is_prefix(enc_ref(v), s0) implies false by {
                    lemma_prefix_len(enc_ref(v), s0);
                }
            }
            return Err(e);
        },
    };
    let ghost s1 = r.rest();
    if t == 0 {
        match r.u32() {
            Ok(v) => {
                let ghost s2 = r.rest();
                proof {
                    assert(s0 =~= enc_ref(RefV::Heap(v)) + s2);
                    assert forall|rv: RefV| #[trigger] is_prefix(enc_ref(rv), s0) implies rv
                        == RefV::Heap(v) by {
                        match rv {
                            RefV::Heap(id) => {
                                lemma_prefix_tag(t, 0, enc_u32(id), s0, s1);
                                lemma_fixed_lens();
                                lemma_fixed_lens();
                                lemma_prefix_same(enc_u32(v), enc_u32(id), s1, s2);
                                lemma_u32_injective(v, id);
                            },
                            RefV::External(x) => {
                                lemma_prefix_tag(t, 1, enc_text(x), s0, s1);
                            },
                        }
                    }
                }
                Ok(PengBinaryRef::Heap(PengBinaryHeapId(v)))
            },
            Err(e) => {
                proof {
                    assert forall|rv: RefV| #[trigger] is_prefix(enc_ref(rv), s0) implies false by {
                        match rv {
                            RefV::Heap(id) => {
                                lemma_prefix_tag(t, 0, enc_u32(id), s0, s1);
                                lemma_fixed_lens();
                            },
                            RefV::External(x) => {
                                lemma_prefix_tag(t, 1, enc_text(x), s0, s1);
                            },
                        }
                    }
                }
                Err(e)
            },
        }
    } else if t == 1 {
        match r.text() {
            Ok(v) => {
                let ghost s2 = r.rest();
                proof {
                    assert(s0 =~= enc_ref(RefV::External(v@)) + s2);
                    assert forall|rv: RefV| #[trigger] is_prefix(enc_ref(rv), s0) implies rv
                        == RefV::External(v@) by {
                        match rv {
                            RefV::Heap(id) => {
                                lemma_prefix_tag(t, 0, enc_u32(id), s0, s1);
                            },
                            RefV::External(x) => {
                                lemma_prefix_tag(t, 1, enc_text(x), s0, s1);
                            },
                        }
                    }
                }
                Ok(PengBinaryRef::External(v))
            },
            Err(e) => {
                proof {
                    assert forall|rv: RefV| #[trigger] is_prefix(enc_ref(rv), s0) implies false by {
                        match rv {
                            RefV::Heap(id) => {
                                lemma_prefix_tag(t, 0, enc_u32(id), s0, s1);
                            },
                            RefV::External(x) => {
                                lemma_prefix_tag(t, 1, enc_text(x), s0, s1);
                            },
                        }
                    }
                }
                Err(e)
            },
        }
    } else {
        proof {
            assert forall|rv: RefV| #[trigger] is_prefix(enc_ref(rv), s0) implies false by {
                match rv {
                    RefV::Heap(id) => {
                        lemma_prefix_tag(t, 0, enc_u32(id), s0, s1);
                    },
                    RefV::External(x) => {
                        lemma_prefix_tag(t, 1, enc_text(x), s0, s1);
                    },
                }
            }
        }
        Err(binary_invalid_state_error("invalid reference tag"))
    }
}

} // verus!

verus! {

fn rd_cell(r: &mut R) -> (res: Result<PengBinaryCell, PengError>)
    requires
        old(r).wf(),
    ensures
        final(r).wf(),
        final(r).b == old(r).b,
        res matches Ok(x) ==> old(r).rest() == enc_cell(cell_view(x)) + final(r).rest(),
        forall|v: CellV| #[trigger] is_prefix(enc_cell(v), old(r).rest()) ==> (res matches Ok(x)
            && cell_view(x) == v),
        res matches Err(e) ==> e is InvalidState,
{
    let ghost s0 = r.rest();
    let t = match r.u8() {
        Ok(t) => t,
        Err(e) => {
            proof {
                assert forall|v: CellV| #[trigger] is_prefix(enc_cell(v), s0) implies false by {
                    lemma_enc_cell_nonempty(v);
                }
            }
            return Err(e);
        },
    };
    let ghost s1 = r.rest();
    proof {
        assert forall|v: CellV| #[trigger] is_prefix(enc_cell(v), s0) implies cell_tag(v) == t
            && is_prefix(cell_body(v), s1) by {
            lemma_cell_split(v);
            lemma_prefix_tag(t, cell_tag(v), cell_body(v), s0, s1);
        }
        lemma_fixed_lens();
    }
    if t == 0 {
        proof {
            assert(s0 =~= enc_cell(CellV::Nil) + s1);
        }
        return Ok(PengBinaryCell::Nil);
    }
    if t == 1 {
        return match r.u64() {
            Ok(v) => {
                let ghost s2 = r.rest();
                let x = v as i64;
                proof {
                    assert((x as u64) == v) by (bit_vector)
                        requires
                            x == v as i64,
                    ;
                    assert(s0 =~= enc_cell(CellV::Int(x)) + s2);
                    assert forall|c: CellV| #[trigger] is_prefix(enc_cell(c), s0) implies c
                        == CellV::Int(x) by {
                        let k = c->Int_0;
                        lemma_fixed_lens();
                        lemma_fixed_lens();
                        lemma_prefix_same(enc_u64(v), enc_u64(k as u64), s1, s2);
                        lemma_u64_injective(v, k as u64);
                        assert(k == ((k as u64) as i64)) by (bit_vector);
                    }
                }
                Ok(PengBinaryCell::Int(x))
            },
            Err(e) => {
                proof {
                    assert forall|c: CellV| #[trigger] is_prefix(enc_cell(c), s0) implies false by {
                        lemma_prefix_len(cell_body(c), s1);
                    }
                }
                Err(e)
            },
        };
    }
    if t == 2 || t == 4 {
        return match r.u64() {
            Ok(v) => {
                let ghost s2 = r.rest();
                let ghost cv = if t == 2 { CellV::Uint(v) } else { CellV::Float64(v) };
                proof {
                    assert(s0 =~= enc_cell(cv) + s2);
                    assert forall|c: CellV| #[trigger] is_prefix(enc_cell(c), s0) implies c == cv by {
                        let k: u64 = if t == 2 { c->Uint_0 } else { c->Float64_0 };
                        assert(cell_body(c) == enc_u64(k));
                        lemma_fixed_lens();
                        lemma_fixed_lens();
                        lemma_prefix_same(enc_u64(v), enc_u64(k), s1, s2);
                        lemma_u64_injective(v, k);
                    }
                }
                Ok(if t == 2 { PengBinaryCell::Uint(v) } else { PengBinaryCell::Float64(v) })
            },
            Err(e) => {
                proof {
                    assert forall|c: CellV| #[trigger] is_prefix(enc_cell(c), s0) implies false by {
                        lemma_prefix_len(cell_body(c), s1);
                    }
                }
                Err(e)
            },
        };
    }
    if t == 3 {
        return match r.u32() {
            Ok(v) => {
                let ghost s2 = r.rest();
                proof {
                    assert(s0 =~= enc_cell(CellV::Float32(v)) + s2);
                    assert forall|c: CellV| #[trigger] is_prefix(enc_cell(c), s0) implies c
                        == CellV::Float32(v) by {
                        let k = c->Float32_0;
                        lemma_fixed_lens();
                        lemma_fixed_lens();
                        lemma_prefix_same(enc_u32(v), enc_u32(k), s1, s2);
                        lemma_u32_injective(v, k);
                    }
                }
                Ok(PengBinaryCell::Float32(v))
            },
            Err(e) => {
                proof {
                    assert forall|c: CellV| #[trigger] is_prefix(enc_cell(c), s0) implies false by {
                        lemma_prefix_len(cell_body(c), s1);
                    }
                }
                Err(e)
            },
        };
    }
    if t == 5 {
        return match r.u8() {
            Ok(v) => {
                let ghost s2 = r.rest();
                proof {
                    assert(s0 =~= enc_cell(CellV::Byte(v)) + s2);
                    assert forall|c: CellV| #[trigger] is_prefix(enc_cell(c), s0) implies c
                        == CellV::Byte(v) by {
                        lemma_prefix_same(seq![v], cell_body(c), s1, s2);
                        assert(seq![v][0] == cell_body(c)[0]);
                    }
                }
                Ok(PengBinaryCell::Byte(v))
            },
            Err(e) => {
                proof {
                    assert forall|c: CellV| #[trigger] is_prefix(enc_cell(c), s0) implies false by {
                        lemma_prefix_len(cell_body(c), s1);
                    }
                }
                Err(e)
            },
        };
    }
    if t == 6 {
        return match r.u8() {
            Ok(0) => {
                let ghost s2 = r.rest();
                proof {
                    assert(s0 =~= enc_cell(CellV::Bool(false)) + s2);
                    assert forall|c: CellV| #[trigger] is_prefix(enc_cell(c), s0) implies c
                        == CellV::Bool(false) by {
                        lemma_prefix_same(seq![0u8], cell_body(c), s1, s2);
                        assert(seq![0u8][0] == cell_body(c)[0]);
                    }
                }
                Ok(PengBinaryCell::Bool(false))
            },
            Ok(1) => {
                let ghost s2 = r.rest();
                proof {
                    assert(s0 =~= enc_cell(CellV::Bool(true)) + s2);
                    assert forall|c: CellV| #[trigger] is_prefix(enc_cell(c), s0) implies c
                        == CellV::Bool(true) by {
                        lemma_prefix_same(seq![1u8], cell_body(c), s1, s2);
                        assert(seq![1u8][0] == cell_body(c)[0]);
                    }
                }
                Ok(PengBinaryCell::Bool(true))
            },
            Ok(b) => {
                let ghost s2 = r.rest();
                proof {
                    assert forall|c: CellV| #[trigger] is_prefix(enc_cell(c), s0) implies false by {
                        lemma_prefix_same(seq![b], cell_body(c), s1, s2);
                        assert(seq![b][0] == cell_body(c)[0]);
                    }
                }
                Err(binary_invalid_state_error("invalid bool"))
            },
            Err(e) => {
                proof {
                    assert forall|c: CellV| #[trigger] is_prefix(enc_cell(c), s0) implies false by {
                        lemma_prefix_len(cell_body(c), s1);
                    }
                }
                Err(e)
            },
        };
    }
    if t == 7 {
        return match rd_ref(r) {
            Ok(v) => {
                let ghost s2 = r.rest();
                proof {
                    assert(s0 =~= enc_cell(CellV::Reference(ref_view(v))) + s2);
                    assert forall|c: CellV| #[trigger] is_prefix(enc_cell(c), s0) implies c
                        == CellV::Reference(ref_view(v)) by {
                        assert(is_prefix(enc_ref(c->Reference_0), s1));
                    }
                }
                Ok(PengBinaryCell::Reference(v))
            },
            Err(e) => {
                proof {
                    assert forall|c: CellV| #[trigger] is_prefix(enc_cell(c), s0) implies false by {
                        assert(is_prefix(enc_ref(c->Reference_0), s1));
                    }
                }
                Err(e)
            },
        };
    }
    Err(binary_invalid_state_error("invalid cell tag"))
}

} // verus!

verus! {

fn rd_bound(r: &mut R) -> (res: Result<PengBinaryBindedCell, PengError>)
    requires
        old(r).wf(),
    ensures
        final(r).wf(),
        final(r).b == old(r).b,
        res matches Ok(x) ==> old(r).rest() == enc_binded(binded_view(x)) + final(r).rest(),
        forall|v: BindedV| #[trigger] is_prefix(enc_binded(v), old(r).rest()) ==> (res matches Ok(x)
            && binded_view(x) == v),
        res matches Err(e) ==> e is InvalidState,
{
    let ghost s0 = r.rest();
    let t = match r.u8() {
        Ok(v) => v,
        Err(e) => {
            proof {
                assert forall|v: BindedV| #[trigger] is_prefix(enc_binded(v), s0) implies false by {
                    lemma_binded_split(v);
                }
            }
            return Err(e);
        },
    };
    let ghost s1 = r.rest();
    proof {
        assert forall|v: BindedV| #[trigger] is_prefix(enc_binded(v), s0) implies binded_tag(v) == t
            && is_prefix(enc_cell(binded_cell(v)), s1) by {
            lemma_binded_split(v);
            lemma_prefix_tag(t, binded_tag(v), enc_cell(binded_cell(v)), s0, s1);
        }
    }
    let v = match rd_cell(r) {
        Ok(v) => v,
        Err(e) => {
            proof {
                assert forall|v: BindedV| #[trigger] is_prefix(enc_binded(v), s0) implies false by {
                    assert(is_prefix(enc_cell(binded_cell(v)), s1));
                }
            }
            return Err(e);
        },
    };
    let ghost s2 = r.rest();
    proof {
        assert forall|b: BindedV| #[trigger] is_prefix(enc_binded(b), s0) implies binded_tag(b) == t
            && binded_cell(b) == cell_view(v) by {
            assert(is_prefix(enc_cell(binded_cell(b)), s1));
        }
    }
    match t {
        0 => {
            proof {
                assert(s0 =~= enc_binded(BindedV::Mutable(cell_view(v))) + s2);
            }
            Ok(PengBinaryBindedCell::Mutable(v))
        },
        1 => {
            proof {
                assert(s0 =~= enc_binded(BindedV::Immutable(cell_view(v))) + s2);
            }
            Ok(PengBinaryBindedCell::Immutable(v))
        },
        _ => Err(binary_invalid_state_error("invalid binding tag")),
    }
}

#[verifier::loop_isolation(false)]
fn rd_fields(r: &mut R) -> (res: Result<Vec<(String, PengBinaryBindedCell)>, PengError>)
    requires
        old(r).wf(),
    ensures
        final(r).wf(),
        final(r).b == old(r).b,
        res matches Ok(x) ==> old(r).rest() == enc_fields(fields_view(x@)) + final(r).rest(),
        forall|v: Seq<(Seq<char>, BindedV)>| #[trigger] is_prefix(enc_fields(v), old(r).rest()) ==> (
        res matches Ok(x) && fields_view(x@) == v),
        res matches Err(e) ==> e is InvalidState,
{
    let ghost f = |x: (Seq<char>, BindedV)| enc_field(x);
    let ghost s0 = r.rest();
    proof {
        lemma_fixed_lens();
        assert forall|v: Seq<(Seq<char>, BindedV)>| #[trigger] is_prefix(enc_fields(v), s0) implies v.len()
            <= usize::MAX && is_prefix(enc_len(v.len()), s0) by {
            assert forall|x: (Seq<char>, BindedV)| #[trigger] f(x).len() >= 1 by {
                lemma_enc_text_len(x.0);
            }
            crate::binary::encoding::lemma_enc_list_len(v, f);
            lemma_prefix_front(enc_len(v.len()), enc_list(v, f), s0);
        }
    }
    let n = match r.len() {
        Ok(v) => v,
        Err(e) => return Err(e),
    };
    let ghost s1 = r.rest();
    proof {
        assert forall|v: Seq<(Seq<char>, BindedV)>| #[trigger] is_prefix(enc_fields(v), s0) implies v.len()
            == n && is_prefix(enc_list(v, f), s1) by {
            lemma_prefix_concat(enc_len(v.len()), enc_list(v, f), s0, s1);
        }
    }
    let mut o: Vec<(String, PengBinaryBindedCell)> = Vec::new();
    let mut i: usize = 0;
    while i < n
        invariant
            r.wf(),
            r.b == old(r).b,
            i <= n,
            o@.len() == i,
            f == (|x: (Seq<char>, BindedV)| enc_field(x)),
            s1 == enc_list(fields_view(o@), f) + r.rest(),
            forall|vs: Seq<(Seq<char>, BindedV)>|
                vs.len() == n && #[trigger] is_prefix(enc_list(vs, f), s1) ==> fields_view(o@) == vs.take(
                    i as int,
                ),
        decreases n - i,
    {
        let ghost si = r.rest();
        proof {
            assert forall|vs: Seq<(Seq<char>, BindedV)>|
                vs.len() == n && #[trigger] is_prefix(enc_list(vs, f), s1) implies is_prefix(
                enc_text(vs[i as int].0),
                si,
            ) && is_prefix(enc_binded(vs[i as int].1), si.subrange(enc_text(vs[i as int].0).len() as int, si.len() as int)) by {
                lemma_list_step(vs, i as int, f, s1, si);
                lemma_prefix_front(enc_text(vs[i as int].0), enc_binded(vs[i as int].1), si);
                let a = enc_text(vs[i as int].0);
                assert(si =~= a + si.subrange(a.len() as int, si.len() as int));
                lemma_prefix_concat(a, enc_binded(vs[i as int].1), si, si.subrange(a.len() as int, si.len() as int));
            }
        }
        let k = match r.text() {
            Ok(v) => v,
            Err(e) => {
                proof {
                    assert forall|v: Seq<(Seq<char>, BindedV)>| #[trigger] is_prefix(enc_fields(v), s0) implies false by {
                        assert(is_prefix(enc_list(v, f), s1));
                        assert(is_prefix(enc_text(v[i as int].0), si));
                    }
                }
                return Err(e);
            },
        };
        let ghost sk = r.rest();
        proof {
            assert forall|vs: Seq<(Seq<char>, BindedV)>|
                vs.len() == n && #[trigger] is_prefix(enc_list(vs, f), s1) implies vs[i as int].0 == k@
                && is_prefix(enc_binded(vs[i as int].1), sk) by {
                assert(is_prefix(enc_text(vs[i as int].0), si));
                assert(si =~= enc_text(k@) + sk);
                assert(sk =~= si.subrange(enc_text(k@).len() as int, si.len() as int));
            }
        }
        let b = match rd_bound(r) {
            Ok(v) => v,
            Err(e) => {
                proof {
                    assert forall|v: Seq<(Seq<char>, BindedV)>| #[trigger] is_prefix(enc_fields(v), s0) implies false by {
                        assert(is_prefix(enc_list(v, f), s1));
                        assert(is_prefix(enc_binded(v[i as int].1), sk));
                    }
                }
                return Err(e);
            },
        };
        let ghost ghost_o = o@;
        o.push((k, b));
        proof {
            assert(fields_view(o@) =~= fields_view(ghost_o).push(field_view((k, b))));
            crate::binary::encoding::lemma_enc_list_push(fields_view(ghost_o), field_view((k, b)), f);
            assert(s1 =~= enc_list(fields_view(o@), f) + r.rest());
            assert forall|vs: Seq<(Seq<char>, BindedV)>|
                vs.len() == n && #[trigger] is_prefix(enc_list(vs, f), s1) implies fields_view(o@)
                == vs.take(i + 1) by {
                assert(is_prefix(enc_binded(vs[i as int].1), sk));
                assert(fields_view(ghost_o) == vs.take(i as int));
                assert(vs.take(i + 1) =~= vs.take(i as int).push(vs[i as int]));
            }
        }
        i = i + 1;
    }
    proof {
        assert(s0 =~= enc_fields(fields_view(o@)) + r.rest());
        assert forall|v: Seq<(Seq<char>, BindedV)>| #[trigger] is_prefix(enc_fields(v), s0) implies fields_view(o@) == v by {
            assert(is_prefix(enc_list(v, f), s1));
            assert(v.take(n as int) =~= v);
        }
    }
    Ok(o)
}

} // verus!

verus! {

fn rd_type(r: &mut R) -> (res: Result<PengBinaryType, PengError>)
    requires
        old(r).wf(),
    ensures
        final(r).wf(),
        final(r).b == old(r).b,
        res matches Ok(x) ==> old(r).rest() == enc_type(type_view(x)) + final(r).rest(),
        forall|v: TypeV| #[trigger] is_prefix(enc_type(v), old(r).rest()) ==> (res matches Ok(x)
            && type_view(x) == v),
        res matches Err(e) ==> e is InvalidState,
    decreases old(r).rest().len(),
{
    let ghost s0 = r.rest();
    let t = match r.u8() {
        Ok(v) => v,
        Err(e) => {
            proof {
                assert forall|v: TypeV| #[trigger] is_prefix(enc_type(v), s0) implies false by {
                    lemma_type_split(v);
                }
            }
            return Err(e);
        },
    };
    let ghost s1 = r.rest();
    proof {
        assert forall|v: TypeV| #[trigger] is_prefix(enc_type(v), s0) implies type_tag(v) == t
            && is_prefix(type_body(v), s1) by {
            lemma_type_split(v);
            lemma_prefix_tag(t, type_tag(v), type_body(v), s0, s1);
        }
    }
    if t == 9 {
        return match rd_type(r) {
            Ok(v) => {
                let ghost s2 = r.rest();
                proof {
                    let tv = TypeV::Vector(Box::new(type_view(v)));
                    assert(s0 =~= enc_type(tv) + s2);
                    assert forall|x: TypeV| #[trigger] is_prefix(enc_type(x), s0) implies x == tv by {
                        assert(is_prefix(enc_type(*x->Vector_0), s1));
                    }
                }
                Ok(PengBinaryType::Vector(Box::new(v)))
            },
            Err(e) => {
                proof {
                    assert forall|x: TypeV| #[trigger] is_prefix(enc_type(x), s0) implies false by {
                        assert(is_prefix(enc_type(*x->Vector_0), s1));
                    }
                }
                Err(e)
            },
        };
    }
    if t == 15 {
        return match rd_fields(r) {
            Ok(v) => {
                let ghost s2 = r.rest();
                proof {
                    let tv = TypeV::Custom(fields_view(v@));
                    assert(s0 =~= enc_type(tv) + s2);
                    assert forall|x: TypeV| #[trigger] is_prefix(enc_type(x), s0) implies x == tv by {
                        assert(is_prefix(enc_fields(x->Custom_0), s1));
                    }
                }
                Ok(PengBinaryType::Custom(v))
            },
            Err(e) => {
                proof {
                    assert forall|x: TypeV| #[trigger] is_prefix(enc_type(x), s0) implies false by {
                        assert(is_prefix(enc_fields(x->Custom_0), s1));
                    }
                }
                Err(e)
            },
        };
    }
    let res = match t {
        0 => PengBinaryType::Nil,
        1 => PengBinaryType::Int,
        2 => PengBinaryType::Uint,
        3 => PengBinaryType::Float32,
        4 => PengBinaryType::Float64,
        5 => PengBinaryType::Byte,
        6 => PengBinaryType::Bool,
        7 => PengBinaryType::String,
        8 => PengBinaryType::Object,
        10 => PengBinaryType::Type,
        11 => PengBinaryType::Module,
        12 => PengBinaryType::Function,
        13 => PengBinaryType::Operator,
        14 => PengBinaryType::Thread,
        16 => PengBinaryType::Any,
        _ => {
            return Err(binary_invalid_state_error("invalid type tag"));
        },
    };
    proof {
        assert(s0 =~= enc_type(type_view(res)) + s1);
    }
    Ok(res)
}

fn rd_pos(r: &mut R) -> (res: Result<PengPosition, PengError>)
    requires
        old(r).wf(),
    ensures
        final(r).wf(),
        final(r).b == old(r).b,
        res matches Ok(x) ==> old(r).rest() == enc_pos(x) + final(r).rest(),
        forall|v: PengPosition| #[trigger] is_prefix(enc_pos(v), old(r).rest()) ==> res == Ok::<
            PengPosition,
            PengError,
        >(v),
        res matches Err(e) ==> e is InvalidState,
{
    let ghost s0 = r.rest();
    proof {
        lemma_fixed_lens();
        assert forall|v: PengPosition| #[trigger] is_prefix(enc_pos(v), s0) implies is_prefix(
            enc_len(v.id as nat),
            s0,
        ) by {
            lemma_pos_split(v);
            lemma_prefix_front(
                enc_u64(v.id as u64),
                enc_u64(v.line as u64) + (seq![column_tag(v.column)] + column_body(v.column)),
                s0,
            );
        }
    }
    let id = match r.len() {
        Ok(v) => v,
        Err(e) => return Err(e),
    };
    let ghost s1 = r.rest();
    proof {
        assert forall|v: PengPosition| #[trigger] is_prefix(enc_pos(v), s0) implies v.id == id
            && is_prefix(enc_len(v.line as nat), s1) && is_prefix(
            enc_u64(v.line as u64) + (seq![column_tag(v.column)] + column_body(v.column)),
            s1,
        ) by {
            lemma_pos_split(v);
            let rest = enc_u64(v.line as u64) + (seq![column_tag(v.column)] + column_body(v.column));
            assert(is_prefix(enc_len(v.id as nat), s0));
            lemma_prefix_concat(enc_u64(v.id as u64), rest, s0, s1);
            lemma_prefix_front(enc_u64(v.line as u64), seq![column_tag(v.column)] + column_body(v.column), s1);
        }
    }
    let line = match r.len() {
        Ok(v) => v,
        Err(e) => return Err(e),
    };
    let ghost s2 = r.rest();
    proof {
        assert forall|v: PengPosition| #[trigger] is_prefix(enc_pos(v), s0) implies v.line == line
            && is_prefix(seq![column_tag(v.column)] + column_body(v.column), s2) by {
            let rest = enc_u64(v.line as u64) + (seq![column_tag(v.column)] + column_body(v.column));
            assert(is_prefix(rest, s1));
            assert(is_prefix(enc_len(v.line as nat), s1));
            lemma_prefix_concat(enc_u64(v.line as u64), seq![column_tag(v.column)] + column_body(v.column), s1, s2);
        }
    }
    let column = match r.u8() {
        Ok(0) => {
            let ghost s3 = r.rest();
            proof {
                assert forall|v: PengPosition| #[trigger] is_prefix(enc_pos(v), s0) implies v.column
                    == None::<usize> by {
                    assert(is_prefix(seq![column_tag(v.column)] + column_body(v.column), s2));
                    lemma_prefix_tag(0, column_tag(v.column), column_body(v.column), s2, s3);
                }
            }
            None
        },
        Ok(1) => {
            let ghost s3 = r.rest();
            proof {
                assert forall|v: PengPosition| #[trigger] is_prefix(enc_pos(v), s0) implies v.column
                    is Some && is_prefix(enc_len(v.column->Some_0 as nat), s3) by {
                    assert(is_prefix(seq![column_tag(v.column)] + column_body(v.column), s2));
                    lemma_prefix_tag(1, column_tag(v.column), column_body(v.column), s2, s3);
                }
            }
            Some(
                match r.len() {
                    Ok(v) => v,
                    Err(e) => return Err(e),
                },
            )
        },
        Ok(b) => {
            let ghost s3 = r.rest();
            proof {
                assert forall|v: PengPosition| #[trigger] is_prefix(enc_pos(v), s0) implies false by {
                    assert(is_prefix(seq![column_tag(v.column)] + column_body(v.column), s2));
                    lemma_prefix_tag(b, column_tag(v.column), column_body(v.column), s2, s3);
                }
            }
            return Err(binary_invalid_state_error("invalid option tag"));
        },
        Err(e) => {
            proof {
                assert forall|v: PengPosition| #[trigger] is_prefix(enc_pos(v), s0) implies false by {
                    assert(is_prefix(seq![column_tag(v.column)] + column_body(v.column), s2));
                }
            }
            return Err(e);
        },
    };
    let res = PengPosition::new(id, line, column);
    proof {
        assert(s0 =~= enc_pos(res) + r.rest());
    }
    Ok(res)
}

} // verus!

verus! {

fn rd_instr(r: &mut R) -> (res: Result<PengBinaryOpcode, PengError>)
    requires
        old(r).wf(),
    ensures
        final(r).wf(),
        final(r).b == old(r).b,
        res matches Ok(x) ==> old(r).rest() == enc_opcode(opcode_view(x)) + final(r).rest(),
        forall|v: OpcodeV|
            crate::binary::model::opcode_exists(v) && #[trigger] is_prefix(enc_opcode(v), old(r).rest())
                ==> (res matches Ok(x) && opcode_view(x) == v),
        res matches Err(e) ==> e is InvalidState,
        old(r).rest().len() >= 1 && (old(r).rest()[0] == 13 || old(r).rest()[0] >= 52) ==> (res matches Err(
            PengError::InvalidState(m),
        ) && m@ == "invalid Penguin binary: "@ + "invalid instruction tag"@ && final(r).p == old(r).p + 1),
        forall|v: OpcodeV, t: Seq<u8>|
            crate::binary::model::opcode_exists(v) && old(r).rest() == #[trigger] (enc_opcode(v) + t) ==> (res matches Ok(x)
                && opcode_view(x) == v && final(r).rest() == t),
{
    let res = rd_instr_inner(r);
    proof {
        assert forall|v: OpcodeV, t: Seq<u8>|
            crate::binary::model::opcode_exists(v) && old(r).rest() == #[trigger] (enc_opcode(v) + t) implies (res matches Ok(x)
                && opcode_view(x) == v && r.rest() == t) by {
            let e = enc_opcode(v);
            assert(old(r).rest().subrange(0, e.len() as int) =~= e);
            assert(is_prefix(e, old(r).rest()));
            if let Ok(x) = res {
                assert(old(r).rest() == e + r.rest());
                assert(r.rest() =~= old(r).rest().subrange(e.len() as int, old(r).rest().len() as int));
                assert(t =~= old(r).rest().subrange(e.len() as int, old(r).rest().len() as int));
            }
        }
    }
    res
}

fn rd_instr_inner(r: &mut R) -> (res: Result<PengBinaryOpcode, PengError>)
    requires
        old(r).wf(),
    ensures
        final(r).wf(),
        final(r).b == old(r).b,
        res matches Ok(x) ==> old(r).rest() == enc_opcode(opcode_view(x)) + final(r).rest(),
        forall|v: OpcodeV|
            crate::binary::model::opcode_exists(v) && #[trigger] is_prefix(enc_opcode(v), old(r).rest())
                ==> (res matches Ok(x) && opcode_view(x) == v),
        res matches Err(e) ==> e is InvalidState,
        old(r).rest().len() >= 1 && (old(r).rest()[0] == 13 || old(r).rest()[0] >= 52) ==> (res matches Err(
            PengError::InvalidState(m),
        ) && m@ == "invalid Penguin binary: "@ + "invalid instruction tag"@ && final(r).p == old(r).p + 1),
{
    let ghost s0 = r.rest();
    let t = match r.u8() {
        Ok(v) => v,
        Err(e) => {
            proof {
                assert forall|o: OpcodeV| #[trigger] is_prefix(enc_opcode(o), s0) implies false by {
                    lemma_prefix_len(enc_opcode(o), s0);
                }
            }
            return Err(e);
        },
    };
    let ghost s1 = r.rest();
    proof {
        assert forall|v: OpcodeV| #[trigger] is_prefix(enc_opcode(v), s0) implies v.tag == t
            && is_prefix(enc_arg(v.arg), s1) by {
            lemma_prefix_tag(t, v.tag, enc_arg(v.arg), s0, s1);
        }
        lemma_fixed_lens();
    }
    if t == 0 || t == 2 || t == 3 || t == 4 || t == 11 || t == 12 || t == 38 || t == 39 || t == 40
        || t == 41 || t == 48 || t == 49 || t == 50 {
        proof {
            assert forall|o: OpcodeV|
                crate::binary::model::opcode_exists(o) && #[trigger] is_prefix(enc_opcode(o), s0)
                    implies is_prefix(enc_len(o.arg->Num_0 as nat), s1) by {
                assert(enc_arg(o.arg) == enc_len(o.arg->Num_0 as nat));
            }
        }
        let v = match r.len() {
            Ok(v) => v,
            Err(e) => return Err(e),
        };
        proof {
            assert forall|o: OpcodeV|
                crate::binary::model::opcode_exists(o) && #[trigger] is_prefix(enc_opcode(o), s0)
                    implies o.arg == ArgV::Num(v) by {
                assert(is_prefix(enc_len(o.arg->Num_0 as nat), s1));
            }
        }
        let res = match t {
            0 => PengBinaryOpcode::PushConst(v),
            2 => PengBinaryOpcode::PushLocal(v),
            3 => PengBinaryOpcode::ReserveLocal(v),
            4 => PengBinaryOpcode::StoreLocal(v),
            11 => PengBinaryOpcode::CreateVector(v),
            12 => PengBinaryOpcode::CreateSuperType(v),
            38 => PengBinaryOpcode::FunctionCall(v),
            39 => PengBinaryOpcode::FunctionCallSpread(v),
            40 => PengBinaryOpcode::TryFunctionCall(v),
            41 => PengBinaryOpcode::TryFunctionCallSpread(v),
            48 => PengBinaryOpcode::Jump(v),
            49 => PengBinaryOpcode::JumpIfTrue(v),
            _ => PengBinaryOpcode::JumpIfFalse(v),
        };
        proof {
            assert(opcode_view(res) == crate::binary::model::op(t, ArgV::Num(v)));
            assert(s0 =~= enc_opcode(opcode_view(res)) + r.rest());
        }
        return Ok(res);
    }
    if t == 5 || t == 6 {
        let v = match rd_ref(r) {
            Ok(v) => v,
            Err(e) => {
                proof {
                    assert forall|o: OpcodeV|
                        crate::binary::model::opcode_exists(o) && #[trigger] is_prefix(enc_opcode(o), s0)
                            implies false by {
                        assert(is_prefix(enc_ref(o.arg->Ref_0), s1));
                    }
                }
                return Err(e);
            },
        };
        proof {
            assert forall|o: OpcodeV|
                crate::binary::model::opcode_exists(o) && #[trigger] is_prefix(enc_opcode(o), s0)
                    implies o.arg == ArgV::Ref(ref_view(v)) by {
                assert(is_prefix(enc_ref(o.arg->Ref_0), s1));
            }
        }
        let res = if t == 5 {
            PengBinaryOpcode::PushHeap(v)
        } else {
            PengBinaryOpcode::PushHeapRef(v)
        };
        proof {
            assert(s0 =~= enc_opcode(opcode_view(res)) + r.rest());
        }
        return Ok(res);
    }
    if t == 8 || t == 44 || t == 45 || t == 46 || t == 47 {
        let v = match r.text() {
            Ok(v) => v,
            Err(e) => {
                proof {
                    assert forall|o: OpcodeV|
                        crate::binary::model::opcode_exists(o) && #[trigger] is_prefix(enc_opcode(o), s0)
                            implies false by {
                        assert(is_prefix(enc_text(o.arg->Text_0), s1));
                    }
                }
                return Err(e);
            },
        };
        proof {
            assert forall|o: OpcodeV|
                crate::binary::model::opcode_exists(o) && #[trigger] is_prefix(enc_opcode(o), s0)
                    implies o.arg == ArgV::Text(v@) by {
                assert(is_prefix(enc_text(o.arg->Text_0), s1));
            }
        }
        let res = match t {
            8 => PengBinaryOpcode::PushString(v),
            44 => PengBinaryOpcode::GetAttribute(v),
            45 => PengBinaryOpcode::SetAttribute(v),
            46 => PengBinaryOpcode::GetMember(v),
            _ => PengBinaryOpcode::SetMember(v),
        };
        proof {
            assert(s0 =~= enc_opcode(opcode_view(res)) + r.rest());
        }
        return Ok(res);
    }
    let res = match t {
        1 => PengBinaryOpcode::MakeImmutable,
        7 => PengBinaryOpcode::StoreHeap,
        9 => PengBinaryOpcode::CreateEmptyObject,
        10 => PengBinaryOpcode::CreateEmptyModule,
        14 => PengBinaryOpcode::CreateTypedObject,
        15 => PengBinaryOpcode::Convert,
        16 => PengBinaryOpcode::Duplicate,
        17 => PengBinaryOpcode::Pop,
        18 => PengBinaryOpcode::Swap,
        19 => PengBinaryOpcode::Add,
        20 => PengBinaryOpcode::Subtract,
        21 => PengBinaryOpcode::Multiply,
        22 => PengBinaryOpcode::Divide,
        23 => PengBinaryOpcode::Power,
        24 => PengBinaryOpcode::Remainder,
        25 => PengBinaryOpcode::Negate,
        26 => PengBinaryOpcode::Concat,
        27 => PengBinaryOpcode::And,
        28 => PengBinaryOpcode::Or,
        29 => PengBinaryOpcode::Not,
        30 => PengBinaryOpcode::Equals,
        31 => PengBinaryOpcode::NotEquals,
        32 => PengBinaryOpcode::GreaterThan,
        33 => PengBinaryOpcode::GreaterEqualsThan,
        34 => PengBinaryOpcode::LessThan,
        35 => PengBinaryOpcode::LessEqualsThan,
        36 => PengBinaryOpcode::OperationCall,
        37 => PengBinaryOpcode::TryOperationCall,
        42 => PengBinaryOpcode::GetIndex,
        43 => PengBinaryOpcode::SetIndex,
        51 => PengBinaryOpcode::Return,
        _ => {
            return Err(binary_invalid_state_error("invalid instruction tag"));
        },
    };
    proof {
        assert(s0 =~= enc_opcode(opcode_view(res)) + s1);
        assert forall|o: OpcodeV|
            crate::binary::model::opcode_exists(o) && #[trigger] is_prefix(enc_opcode(o), s0) implies o
                == opcode_view(res) by {
            assert(o.arg == ArgV::NoArg);
        }
    }
    Ok(res)
}

} // verus!

verus! {

#[verifier::loop_isolation(false)]
fn rd_ops(r: &mut R) -> (res: Result<Vec<PengBinaryOpcode>, PengError>)
    requires
        old(r).wf(),
    ensures
        final(r).wf(),
        final(r).b == old(r).b,
        res matches Ok(x) ==> old(r).rest() == ops_section(x@.map_values(|e: PengBinaryOpcode| opcode_view(e))) + final(r).rest(),
        forall|v: Seq<OpcodeV>|
            (forall|j: int| 0 <= j < v.len() ==> #[trigger] crate::binary::model::opcode_exists(v[j])) && #[trigger] is_prefix(ops_section(v), old(r).rest()) ==> (res matches Ok(x)
            && x@.map_values(|e: PengBinaryOpcode| opcode_view(e)) == v),
        res matches Err(e) ==> e is InvalidState,
{
    let ghost f = |x: OpcodeV| enc_opcode(x);
    let ghost s0 = r.rest();
    proof {
        lemma_fixed_lens();
        assert forall|v: Seq<OpcodeV>| #[trigger] is_prefix(ops_section(v), s0) implies v.len() <= usize::MAX
            && is_prefix(enc_len(v.len()), s0) by {
            assert forall|x: OpcodeV| #[trigger] f(x).len() >= 1 by {
                lemma_opcode_split(x);
            }
            crate::binary::encoding::lemma_enc_list_len(v, f);
            lemma_prefix_front(enc_len(v.len()), enc_list(v, f), s0);
        }
    }
    let n = match r.len() {
        Ok(v) => v,
        Err(e) => return Err(e),
    };
    let ghost s1 = r.rest();
    proof {
        assert forall|v: Seq<OpcodeV>| #[trigger] is_prefix(ops_section(v), s0) implies v.len() == n
            && is_prefix(enc_list(v, f), s1) by {
            lemma_prefix_concat(enc_len(v.len()), enc_list(v, f), s0, s1);
        }
    }
    let mut o: Vec<PengBinaryOpcode> = Vec::new();
    let mut i: usize = 0;
    while i < n
        invariant
            r.wf(),
            r.b == old(r).b,
            i <= n,
            o@.len() == i,
            f == (|x: OpcodeV| enc_opcode(x)),
            s1 == enc_list(o@.map_values(|e: PengBinaryOpcode| opcode_view(e)), f) + r.rest(),
            forall|vs: Seq<OpcodeV>|
                (forall|j: int| 0 <= j < vs.len() ==> #[trigger] crate::binary::model::opcode_exists(vs[j])) && vs.len() == n && #[trigger] is_prefix(enc_list(vs, f), s1) ==> o@.map_values(|e: PengBinaryOpcode| opcode_view(e))
                    == vs.take(i as int),
        decreases n - i,
    {
        let ghost si = r.rest();
        proof {
            assert forall|vs: Seq<OpcodeV>|
                (forall|j: int| 0 <= j < vs.len() ==> #[trigger] crate::binary::model::opcode_exists(vs[j])) && vs.len() == n && #[trigger] is_prefix(enc_list(vs, f), s1) implies is_prefix(
                enc_opcode(vs[i as int]),
                si,
            ) by {
                lemma_list_step(vs, i as int, f, s1, si);
            }
        }
        let x = match rd_instr(r) {
            Ok(v) => v,
            Err(e) => {
                proof {
                    assert forall|v: Seq<OpcodeV>|
                        (forall|j: int| 0 <= j < v.len() ==> #[trigger] crate::binary::model::opcode_exists(v[j])) && #[trigger] is_prefix(ops_section(v), s0) implies false by {
                        assert(is_prefix(enc_list(v, f), s1));
                        assert(crate::binary::model::opcode_exists(v[i as int]));
                        assert(is_prefix(enc_opcode(v[i as int]), si));
                    }
                }
                return Err(e);
            },
        };
        let ghost ghost_o = o@;
        let ghost ex = opcode_view(x);
        o.push(x);
        proof {
            assert(o@.map_values(|e: PengBinaryOpcode| opcode_view(e)) =~= ghost_o.map_values(|e: PengBinaryOpcode| opcode_view(e)).push(ex));
            crate::binary::encoding::lemma_enc_list_push(ghost_o.map_values(|e: PengBinaryOpcode| opcode_view(e)), ex, f);
            assert(s1 =~= enc_list(o@.map_values(|e: PengBinaryOpcode| opcode_view(e)), f) + r.rest());
            assert forall|vs: Seq<OpcodeV>|
                (forall|j: int| 0 <= j < vs.len() ==> #[trigger] crate::binary::model::opcode_exists(vs[j])) && vs.len() == n && #[trigger] is_prefix(enc_list(vs, f), s1) implies o@.map_values(|e: PengBinaryOpcode| opcode_view(e))
                    == vs.take(i + 1) by {
                assert(crate::binary::model::opcode_exists(vs[i as int]));
                assert(is_prefix(enc_opcode(vs[i as int]), si));
                assert(vs.take(i + 1) =~= vs.take(i as int).push(vs[i as int]));
            }
        }
        i = i + 1;
    }
    proof {
        assert(s0 =~= ops_section(o@.map_values(|e: PengBinaryOpcode| opcode_view(e))) + r.rest());
        assert forall|v: Seq<OpcodeV>|
            (forall|j: int| 0 <= j < v.len() ==> #[trigger] crate::binary::model::opcode_exists(v[j])) && #[trigger] is_prefix(ops_section(v), s0) implies o@.map_values(|e: PengBinaryOpcode| opcode_view(e)) == v by {
            assert(is_prefix(enc_list(v, f), s1));
            assert(v.take(n as int) =~= v);
        }
    }
    Ok(o)
}

#[verifier::loop_isolation(false)]
fn rd_positions(r: &mut R) -> (res: Result<Vec<PengPosition>, PengError>)
    requires
        old(r).wf(),
    ensures
        final(r).wf(),
        final(r).b == old(r).b,
        res matches Ok(x) ==> old(r).rest() == pos_section(x@.map_values(|e: PengPosition| e)) + final(r).rest(),
        forall|v: Seq<PengPosition>|
            true && #[trigger] is_prefix(pos_section(v), old(r).rest()) ==> (res matches Ok(x)
            && x@.map_values(|e: PengPosition| e) == v),
        res matches Err(e) ==> e is InvalidState,
{
    let ghost f = |x: PengPosition| enc_pos(x);
    let ghost s0 = r.rest();
    proof {
        lemma_fixed_lens();
        assert forall|v: Seq<PengPosition>| #[trigger] is_prefix(pos_section(v), s0) implies v.len() <= usize::MAX
            && is_prefix(enc_len(v.len()), s0) by {
            assert forall|x: PengPosition| #[trigger] f(x).len() >= 1 by {
                lemma_pos_split(x);
            }
            crate::binary::encoding::lemma_enc_list_len(v, f);
            lemma_prefix_front(enc_len(v.len()), enc_list(v, f), s0);
        }
    }
    let n = match r.len() {
        Ok(v) => v,
        Err(e) => return Err(e),
    };
    let ghost s1 = r.rest();
    proof {
        assert forall|v: Seq<PengPosition>| #[trigger] is_prefix(pos_section(v), s0) implies v.len() == n
            && is_prefix(enc_list(v, f), s1) by {
            lemma_prefix_concat(enc_len(v.len()), enc_list(v, f), s0, s1);
        }
    }
    let mut o: Vec<PengPosition> = Vec::new();
    let mut i: usize = 0;
    while i < n
        invariant
            r.wf(),
            r.b == old(r).b,
            i <= n,
            o@.len() == i,
            f == (|x: PengPosition| enc_pos(x)),
            s1 == enc_list(o@.map_values(|e: PengPosition| e), f) + r.rest(),
            forall|vs: Seq<PengPosition>|
                true && vs.len() == n && #[trigger] is_prefix(enc_list(vs, f), s1) ==> o@.map_values(|e: PengPosition| e)
                    == vs.take(i as int),
        decreases n - i,
    {
        let ghost si = r.rest();
        proof {
            assert forall|vs: Seq<PengPosition>|
                true && vs.len() == n && #[trigger] is_prefix(enc_list(vs, f), s1) implies is_prefix(
                enc_pos(vs[i as int]),
                si,
            ) by {
                lemma_list_step(vs, i as int, f, s1, si);
            }
        }
        let x = match rd_pos(r) {
            Ok(v) => v,
            Err(e) => {
                proof {
                    assert forall|v: Seq<PengPosition>|
                        true && #[trigger] is_prefix(pos_section(v), s0) implies false by {
                        assert(is_prefix(enc_list(v, f), s1));
                        assert(true);
                        assert(is_prefix(enc_pos(v[i as int]), si));
                    }
                }
                return Err(e);
            },
        };
        let ghost ghost_o = o@;
        let ghost ex = x;
        o.push(x);
        proof {
            assert(o@.map_values(|e: PengPosition| e) =~= ghost_o.map_values(|e: PengPosition| e).push(ex));
            crate::binary::encoding::lemma_enc_list_push(ghost_o.map_values(|e: PengPosition| e), ex, f);
            assert(s1 =~= enc_list(o@.map_values(|e: PengPosition| e), f) + r.rest());
            assert forall|vs: Seq<PengPosition>|
                true && vs.len() == n && #[trigger] is_prefix(enc_list(vs, f), s1) implies o@.map_values(|e: PengPosition| e)
                    == vs.take(i + 1) by {
                assert(true);
                assert(is_prefix(enc_pos(vs[i as int]), si));
                assert(vs.take(i + 1) =~= vs.take(i as int).push(vs[i as int]));
            }
        }
        i = i + 1;
    }
    proof {
        assert(s0 =~= pos_section(o@.map_values(|e: PengPosition| e)) + r.rest());
        assert forall|v: Seq<PengPosition>|
            true && #[trigger] is_prefix(pos_section(v), s0) implies o@.map_values(|e: PengPosition| e) == v by {
            assert(is_prefix(enc_list(v, f), s1));
            assert(v.take(n as int) =~= v);
        }
    }
    Ok(o)
}

#[verifier::loop_isolation(false)]
fn rd_refs(r: &mut R) -> (res: Result<Vec<PengBinaryRef>, PengError>)
    requires
        old(r).wf(),
    ensures
        final(r).wf(),
        final(r).b == old(r).b,
        res matches Ok(x) ==> old(r).rest() == refs_section(x@.map_values(|e: PengBinaryRef| ref_view(e))) + final(r).rest(),
        forall|v: Seq<RefV>|
            true && #[trigger] is_prefix(refs_section(v), old(r).rest()) ==> (res matches Ok(x)
            && x@.map_values(|e: PengBinaryRef| ref_view(e)) == v),
        res matches Err(e) ==> e is InvalidState,
{
    let ghost f = |x: RefV| enc_ref(x);
    let ghost s0 = r.rest();
    proof {
        lemma_fixed_lens();
        assert forall|v: Seq<RefV>| #[trigger] is_prefix(refs_section(v), s0) implies v.len() <= usize::MAX
            && is_prefix(enc_len(v.len()), s0) by {
            assert forall|x: RefV| #[trigger] f(x).len() >= 1 by {
                assert(enc_ref(x).len() >= 1);
            }
            crate::binary::encoding::lemma_enc_list_len(v, f);
            lemma_prefix_front(enc_len(v.len()), enc_list(v, f), s0);
        }
    }
    let n = match r.len() {
        Ok(v) => v,
        Err(e) => return Err(e),
    };
    let ghost s1 = r.rest();
    proof {
        assert forall|v: Seq<RefV>| #[trigger] is_prefix(refs_section(v), s0) implies v.len() == n
            && is_prefix(enc_list(v, f), s1) by {
            lemma_prefix_concat(enc_len(v.len()), enc_list(v, f), s0, s1);
        }
    }
    let mut o: Vec<PengBinaryRef> = Vec::new();
    let mut i: usize = 0;
    while i < n
        invariant
            r.wf(),
            r.b == old(r).b,
            i <= n,
            o@.len() == i,
            f == (|x: RefV| enc_ref(x)),
            s1 == enc_list(o@.map_values(|e: PengBinaryRef| ref_view(e)), f) + r.rest(),
            forall|vs: Seq<RefV>|
                true && vs.len() == n && #[trigger] is_prefix(enc_list(vs, f), s1) ==> o@.map_values(|e: PengBinaryRef| ref_view(e))
                    == vs.take(i as int),
        decreases n - i,
    {
        let ghost si = r.rest();
        proof {
            assert forall|vs: Seq<RefV>|
                true && vs.len() == n && #[trigger] is_prefix(enc_list(vs, f), s1) implies is_prefix(
                enc_ref(vs[i as int]),
                si,
            ) by {
                lemma_list_step(vs, i as int, f, s1, si);
            }
        }
        let x = match rd_ref(r) {
            Ok(v) => v,
            Err(e) => {
                proof {
                    assert forall|v: Seq<RefV>|
                        true && #[trigger] is_prefix(refs_section(v), s0) implies false by {
                        assert(is_prefix(enc_list(v, f), s1));
                        assert(true);
                        assert(is_prefix(enc_ref(v[i as int]), si));
                    }
                }
                return Err(e);
            },
        };
        let ghost ghost_o = o@;
        let ghost ex = ref_view(x);
        o.push(x);
        proof {
            assert(o@.map_values(|e: PengBinaryRef| ref_view(e)) =~= ghost_o.map_values(|e: PengBinaryRef| ref_view(e)).push(ex));
            crate::binary::encoding::lemma_enc_list_push(ghost_o.map_values(|e: PengBinaryRef| ref_view(e)), ex, f);
            assert(s1 =~= enc_list(o@.map_values(|e: PengBinaryRef| ref_view(e)), f) + r.rest());
            assert forall|vs: Seq<RefV>|
                true && vs.len() == n && #[trigger] is_prefix(enc_list(vs, f), s1) implies o@.map_values(|e: PengBinaryRef| ref_view(e))
                    == vs.take(i + 1) by {
                assert(true);
                assert(is_prefix(enc_ref(vs[i as int]), si));
                assert(vs.take(i + 1) =~= vs.take(i as int).push(vs[i as int]));
            }
        }
        i = i + 1;
    }
    proof {
        assert(s0 =~= refs_section(o@.map_values(|e: PengBinaryRef| ref_view(e))) + r.rest());
        assert forall|v: Seq<RefV>|
            true && #[trigger] is_prefix(refs_section(v), s0) implies o@.map_values(|e: PengBinaryRef| ref_view(e)) == v by {
            assert(is_prefix(enc_list(v, f), s1));
            assert(v.take(n as int) =~= v);
        }
    }
    Ok(o)
}

#[verifier::loop_isolation(false)]
fn rd_bound_list(r: &mut R) -> (res: Result<Vec<PengBinaryBindedCell>, PengError>)
    requires
        old(r).wf(),
    ensures
        final(r).wf(),
        final(r).b == old(r).b,
        res matches Ok(x) ==> old(r).rest() == binded_section(x@.map_values(|e: PengBinaryBindedCell| binded_view(e))) + final(r).rest(),
        forall|v: Seq<BindedV>|
            true && #[trigger] is_prefix(binded_section(v), old(r).rest()) ==> (res matches Ok(x)
            && x@.map_values(|e: PengBinaryBindedCell| binded_view(e)) == v),
        res matches Err(e) ==> e is InvalidState,
{
    let ghost f = |x: BindedV| enc_binded(x);
    let ghost s0 = r.rest();
    proof {
        lemma_fixed_lens();
        assert forall|v: Seq<BindedV>| #[trigger] is_prefix(binded_section(v), s0) implies v.len() <= usize::MAX
            && is_prefix(enc_len(v.len()), s0) by {
            assert forall|x: BindedV| #[trigger] f(x).len() >= 1 by {
                lemma_binded_split(x);
            }
            crate::binary::encoding::lemma_enc_list_len(v, f);
            lemma_prefix_front(enc_len(v.len()), enc_list(v, f), s0);
        }
    }
    let n = match r.len() {
        Ok(v) => v,
        Err(e) => return Err(e),
    };
    let ghost s1 = r.rest();
    proof {
        assert forall|v: Seq<BindedV>| #[trigger] is_prefix(binded_section(v), s0) implies v.len() == n
            && is_prefix(enc_list(v, f), s1) by {
            lemma_prefix_concat(enc_len(v.len()), enc_list(v, f), s0, s1);
        }
    }
    let mut o: Vec<PengBinaryBindedCell> = Vec::new();
    let mut i: usize = 0;
    while i < n
        invariant
            r.wf(),
            r.b == old(r).b,
            i <= n,
            o@.len() == i,
            f == (|x: BindedV| enc_binded(x)),
            s1 == enc_list(o@.map_values(|e: PengBinaryBindedCell| binded_view(e)), f) + r.rest(),
            forall|vs: Seq<BindedV>|
                true && vs.len() == n && #[trigger] is_prefix(enc_list(vs, f), s1) ==> o@.map_values(|e: PengBinaryBindedCell| binded_view(e))
                    == vs.take(i as int),
        decreases n - i,
    {
        let ghost si = r.rest();
        proof {
            assert forall|vs: Seq<BindedV>|
                true && vs.len() == n && #[trigger] is_prefix(enc_list(vs, f), s1) implies is_prefix(
                enc_binded(vs[i as int]),
                si,
            ) by {
                lemma_list_step(vs, i as int, f, s1, si);
            }
        }
        let x = match rd_bound(r) {
            Ok(v) => v,
            Err(e) => {
                proof {
                    assert forall|v: Seq<BindedV>|
                        true && #[trigger] is_prefix(binded_section(v), s0) implies false by {
                        assert(is_prefix(enc_list(v, f), s1));
                        assert(true);
                        assert(is_prefix(enc_binded(v[i as int]), si));
                    }
                }
                return Err(e);
            },
        };
        let ghost ghost_o = o@;
        let ghost ex = binded_view(x);
        o.push(x);
        proof {
            assert(o@.map_values(|e: PengBinaryBindedCell| binded_view(e)) =~= ghost_o.map_values(|e: PengBinaryBindedCell| binded_view(e)).push(ex));
            crate::binary::encoding::lemma_enc_list_push(ghost_o.map_values(|e: PengBinaryBindedCell| binded_view(e)), ex, f);
            assert(s1 =~= enc_list(o@.map_values(|e: PengBinaryBindedCell| binded_view(e)), f) + r.rest());
            assert forall|vs: Seq<BindedV>|
                true && vs.len() == n && #[trigger] is_prefix(enc_list(vs, f), s1) implies o@.map_values(|e: PengBinaryBindedCell| binded_view(e))
                    == vs.take(i + 1) by {
                assert(true);
                assert(is_prefix(enc_binded(vs[i as int]), si));
                assert(vs.take(i + 1) =~= vs.take(i as int).push(vs[i as int]));
            }
        }
        i = i + 1;
    }
    proof {
        assert(s0 =~= binded_section(o@.map_values(|e: PengBinaryBindedCell| binded_view(e))) + r.rest());
        assert forall|v: Seq<BindedV>|
            true && #[trigger] is_prefix(binded_section(v), s0) implies o@.map_values(|e: PengBinaryBindedCell| binded_view(e)) == v by {
            assert(is_prefix(enc_list(v, f), s1));
            assert(v.take(n as int) =~= v);
        }
    }
    Ok(o)
}

} // verus!

verus! {

/// Reads the constants of a code block.
#[verifier::loop_isolation(false)]
fn rd_consts(r: &mut R) -> (res: Result<Vec<PengBinaryValue>, PengError>)
    requires
        old(r).wf(),
    ensures
        final(r).wf(),
        final(r).b == old(r).b,
        res matches Ok(x) ==> old(r).rest() == consts_section(values_view(x@)) + final(r).rest(),
        forall|v: Seq<ValueV>|
            values_wf(v) && #[trigger] is_prefix(consts_section(v), old(r).rest()) ==> (res matches Ok(x)
                && values_view(x@) == v),
        res matches Err(e) ==> e is InvalidState,
    decreases old(r).rest().len(),
{
    let ghost s0 = r.rest();
    proof {
        lemma_fixed_lens();
        assert forall|v: Seq<ValueV>| #[trigger] is_prefix(consts_section(v), s0) implies v.len() <= usize::MAX
            && is_prefix(enc_len(v.len()), s0) by {
            lemma_enc_values_len(v);
            lemma_prefix_front(enc_len(v.len()), enc_values(v), s0);
        }
    }
    let n = match r.len() {
        Ok(v) => v,
        Err(e) => return Err(e),
    };
    let ghost s1 = r.rest();
    proof {
        assert(enc_len(n as nat).len() == 8);
        assert forall|v: Seq<ValueV>| #[trigger] is_prefix(consts_section(v), s0) implies v.len() == n
            && is_prefix(enc_values(v), s1) by {
            lemma_prefix_concat(enc_len(v.len()), enc_values(v), s0, s1);
        }
    }
    let mut o: Vec<PengBinaryValue> = Vec::new();
    let mut i: usize = 0;
    while i < n
        invariant
            r.wf(),
            r.b == old(r).b,
            i <= n,
            o@.len() == i,
            s0 == enc_len(n as nat) + s1,
            s1 == enc_values(values_view(o@)) + r.rest(),
            forall|vs: Seq<ValueV>|
                values_wf(vs) && vs.len() == n && #[trigger] is_prefix(enc_values(vs), s1)
                    ==> values_view(o@) == vs.take(i as int),
        decreases n - i,
    {
        let ghost si = r.rest();
        proof {
            assert forall|vs: Seq<ValueV>|
                values_wf(vs) && vs.len() == n && #[trigger] is_prefix(enc_values(vs), s1) implies is_prefix(
                enc_value(vs[i as int]),
                si,
            ) by {
                lemma_values_step(vs, i as int, s1, si);
            }
        }
        let x = match rd_value(r) {
            Ok(v) => v,
            Err(e) => {
                proof {
                    assert forall|v: Seq<ValueV>|
                        values_wf(v) && #[trigger] is_prefix(consts_section(v), s0) implies false by {
                        assert(is_prefix(enc_values(v), s1));
                        lemma_values_wf_index(v, i as int);
                        assert(is_prefix(enc_value(v[i as int]), si));
                    }
                }
                return Err(e);
            },
        };
        let ghost ghost_o = o@;
        o.push(x);
        proof {
            assert(o@.drop_last() =~= ghost_o);
            assert(values_view(o@) == values_view(ghost_o).push(value_view(x)));
            lemma_enc_values_push(values_view(ghost_o), value_view(x));
            assert(s1 =~= enc_values(values_view(o@)) + r.rest());
            assert forall|vs: Seq<ValueV>|
                values_wf(vs) && vs.len() == n && #[trigger] is_prefix(enc_values(vs), s1) implies values_view(o@)
                    == vs.take(i + 1) by {
                lemma_values_wf_index(vs, i as int);
                assert(is_prefix(enc_value(vs[i as int]), si));
                assert(vs.take(i + 1) =~= vs.take(i as int).push(vs[i as int]));
            }
        }
        i = i + 1;
    }
    proof {
        lemma_values_view_len(o@);
        assert(s0 =~= consts_section(values_view(o@)) + r.rest());
        assert forall|v: Seq<ValueV>|
            values_wf(v) && #[trigger] is_prefix(consts_section(v), s0) implies values_view(o@) == v by {
            assert(is_prefix(enc_values(v), s1));
            assert(v.take(n as int) =~= v);
        }
    }
    Ok(o)
}

/// Reads a code block: its instructions, their positions, its constants and the values it uses.
fn rd_code(r: &mut R) -> (res: Result<PengBinaryBytecode, PengError>)
    requires
        old(r).wf(),
    ensures
        final(r).wf(),
        final(r).b == old(r).b,
        res matches Ok(x) ==> old(r).rest() == enc_code(code_view(x)) + final(r).rest(),
        forall|v: CodeV|
            code_wf(v) && #[trigger] is_prefix(enc_code(v), old(r).rest()) ==> (res matches Ok(x)
                && code_view(x) == v),
        res matches Err(e) ==> e is InvalidState,
    decreases old(r).rest().len(),
{
    let ghost s0 = r.rest();
    proof {
        lemma_fixed_lens();
    }
    let bytecode = match rd_ops(r) {
        Ok(v) => v,
        Err(e) => {
            proof {
                assert forall|v: CodeV| code_wf(v) && #[trigger] is_prefix(enc_code(v), s0) implies false by {
                    lemma_prefix_front(ops_section(v.bytecode), pos_section(v.positions) + (consts_section(v.consts)
                        + refs_section(v.using_values)), s0);
                }
            }
            return Err(e);
        },
    };
    let ghost s1 = r.rest();
    let ghost ops = bytecode@.map_values(|e: PengBinaryOpcode| opcode_view(e));
    proof {
        assert(ops_section(ops).len() >= 8);
        assert forall|v: CodeV| code_wf(v) && #[trigger] is_prefix(enc_code(v), s0) implies v.bytecode == ops
            && is_prefix(pos_section(v.positions) + (consts_section(v.consts) + refs_section(v.using_values)), s1) by {
            let t = pos_section(v.positions) + (consts_section(v.consts) + refs_section(v.using_values));
            lemma_prefix_front(ops_section(v.bytecode), t, s0);
            lemma_prefix_concat(ops_section(v.bytecode), t, s0, s1);
        }
    }
    let positions = match rd_positions(r) {
        Ok(v) => v,
        Err(e) => {
            proof {
                assert forall|v: CodeV| code_wf(v) && #[trigger] is_prefix(enc_code(v), s0) implies false by {
                    lemma_prefix_front(pos_section(v.positions), consts_section(v.consts) + refs_section(
                        v.using_values), s1);
                }
            }
            return Err(e);
        },
    };
    let ghost s2 = r.rest();
    proof {
        assert forall|v: CodeV| code_wf(v) && #[trigger] is_prefix(enc_code(v), s0) implies v.positions
            == positions@ && is_prefix(consts_section(v.consts) + refs_section(v.using_values), s2) by {
            let t = consts_section(v.consts) + refs_section(v.using_values);
            lemma_prefix_front(pos_section(v.positions), t, s1);
            lemma_prefix_concat(pos_section(v.positions), t, s1, s2);
        }
    }
    let consts = match rd_consts(r) {
        Ok(v) => v,
        Err(e) => {
            proof {
                assert forall|v: CodeV| code_wf(v) && #[trigger] is_prefix(enc_code(v), s0) implies false by {
                    lemma_prefix_front(consts_section(v.consts), refs_section(v.using_values), s2);
                }
            }
            return Err(e);
        },
    };
    let ghost s3 = r.rest();
    proof {
        assert forall|v: CodeV| code_wf(v) && #[trigger] is_prefix(enc_code(v), s0) implies v.consts
            == values_view(consts@) && is_prefix(refs_section(v.using_values), s3) by {
            lemma_prefix_front(consts_section(v.consts), refs_section(v.using_values), s2);
            lemma_prefix_concat(consts_section(v.consts), refs_section(v.using_values), s2, s3);
        }
    }
    let using_values = match rd_refs(r) {
        Ok(v) => v,
        Err(e) => return Err(e),
    };
    let res = PengBinaryBytecode { bytecode, positions, consts, using_values };
    proof {
        let cv = code_view(res);
        assert(cv.bytecode =~= ops);
        assert(cv.using_values =~= using_values@.map_values(|e: PengBinaryRef| ref_view(e)));
        assert(positions@.map_values(|e: PengPosition| e) =~= positions@);
        assert(cv.positions == positions@);
        assert(cv.consts == values_view(consts@));
        let s4 = r.rest();
        assert(s3 == refs_section(cv.using_values) + s4);
        assert(s2 =~= (consts_section(cv.consts) + refs_section(cv.using_values)) + s4);
        assert(s1 =~= (pos_section(cv.positions) + (consts_section(cv.consts) + refs_section(cv.using_values))) + s4);
        assert(s0 =~= enc_code(cv) + s4);
        assert forall|v: CodeV| code_wf(v) && #[trigger] is_prefix(enc_code(v), s0) implies cv == v by {
            assert(is_prefix(refs_section(v.using_values), s3));
        }
    }
    Ok(res)
}

/// Reads a value: its tag, then what that kind of value holds.
#[verifier::rlimit(60)]
#[verifier::spinoff_prover]
fn rd_value(r: &mut R) -> (res: Result<PengBinaryValue, PengError>)
    requires
        old(r).wf(),
    ensures
        final(r).wf(),
        final(r).b == old(r).b,
        res matches Ok(x) ==> old(r).rest() == enc_value(value_view(x)) + final(r).rest(),
        forall|v: ValueV|
            value_wf(v) && #[trigger] is_prefix(enc_value(v), old(r).rest()) ==> (res matches Ok(x)
                && value_view(x) == v),
        res matches Err(e) ==> e is InvalidState,
    decreases old(r).rest().len(),
{
    let ghost s0 = r.rest();
    let t = match r.u8() {
        Ok(v) => v,
        Err(e) => {
            proof {
                assert forall|v: ValueV| #[trigger] is_prefix(enc_value(v), s0) implies false by {
                    lemma_value_split(v);
                }
            }
            return Err(e);
        },
    };
    let ghost s1 = r.rest();
    proof {
        assert forall|v: ValueV| #[trigger] is_prefix(enc_value(v), s0) implies value_tag(v) == t
            && is_prefix(value_body(v), s1) by {
            lemma_value_split(v);
            lemma_prefix_tag(t, value_tag(v), value_body(v), s0, s1);
        }
    }
    if t == 0 {
        match rd_cell(r) {
            Ok(c) => {
                proof {
                    assert(s0 =~= enc_value(ValueV::Cell(cell_view(c))) + r.rest());
                    assert forall|v: ValueV| value_wf(v) && #[trigger] is_prefix(enc_value(v), s0) implies v
                        == ValueV::Cell(cell_view(c)) by {
                        assert(is_prefix(enc_cell(v->Cell_0), s1));
                    }
                }
                Ok(PengBinaryValue::Cell(c))
            },
            Err(e) => {
                proof {
                    assert forall|v: ValueV| value_wf(v) && #[trigger] is_prefix(enc_value(v), s0) implies false by {
                        assert(is_prefix(enc_cell(v->Cell_0), s1));
                    }
                }
                Err(e)
            },
        }
    } else if t == 1 {
        match r.text() {
            Ok(s) => {
                proof {
                    assert(s0 =~= enc_value(ValueV::String(s@)) + r.rest());
                    assert forall|v: ValueV| value_wf(v) && #[trigger] is_prefix(enc_value(v), s0) implies v
                        == ValueV::String(s@) by {
                        assert(is_prefix(enc_text(v->String_0), s1));
                    }
                }
                Ok(PengBinaryValue::String(s))
            },
            Err(e) => {
                proof {
                    assert forall|v: ValueV| value_wf(v) && #[trigger] is_prefix(enc_value(v), s0) implies false by {
                        assert(is_prefix(enc_text(v->String_0), s1));
                    }
                }
                Err(e)
            },
        }
    } else if t == 2 || t == 5 {
        match rd_fields(r) {
            Ok(f) => {
                let ghost fv = fields_view(f@);
                let ghost want = if t == 2 { ValueV::Object(fv) } else { ValueV::Module(fv) };
                proof {
                    assert(s0 =~= enc_value(want) + r.rest());
                    assert forall|v: ValueV| value_wf(v) && #[trigger] is_prefix(enc_value(v), s0) implies v
                        == want by {
                        if t == 2 {
                            assert(is_prefix(enc_fields(v->Object_0), s1));
                        } else {
                            assert(is_prefix(enc_fields(v->Module_0), s1));
                        }
                    }
                }
                if t == 2 {
                    Ok(PengBinaryValue::Object(f))
                } else {
                    Ok(PengBinaryValue::Module(f))
                }
            },
            Err(e) => {
                proof {
                    assert forall|v: ValueV| value_wf(v) && #[trigger] is_prefix(enc_value(v), s0) implies false by {
                        if t == 2 {
                            assert(is_prefix(enc_fields(v->Object_0), s1));
                        } else {
                            assert(is_prefix(enc_fields(v->Module_0), s1));
                        }
                    }
                }
                Err(e)
            },
        }
    } else if t == 3 {
        match rd_bound_list(r) {
            Ok(b) => {
                let ghost want = ValueV::Vector(b@.map_values(|e: PengBinaryBindedCell| binded_view(e)));
                proof {
                    assert(value_view(PengBinaryValue::Vector(b)) == want);
                    assert(s0 =~= enc_value(want) + r.rest());
                    assert forall|v: ValueV| value_wf(v) && #[trigger] is_prefix(enc_value(v), s0) implies v
                        == want by {
                        assert(is_prefix(binded_section(v->Vector_0), s1));
                    }
                }
                Ok(PengBinaryValue::Vector(b))
            },
            Err(e) => {
                proof {
                    assert forall|v: ValueV| value_wf(v) && #[trigger] is_prefix(enc_value(v), s0) implies false by {
                        assert(is_prefix(binded_section(v->Vector_0), s1));
                    }
                }
                Err(e)
            },
        }
    } else if t == 4 {
        match rd_type(r) {
            Ok(ty) => {
                proof {
                    assert(s0 =~= enc_value(ValueV::Type(type_view(ty))) + r.rest());
                    assert forall|v: ValueV| value_wf(v) && #[trigger] is_prefix(enc_value(v), s0) implies v
                        == ValueV::Type(type_view(ty)) by {
                        assert(is_prefix(enc_type(v->Type_0), s1));
                    }
                }
                Ok(PengBinaryValue::Type(ty))
            },
            Err(e) => {
                proof {
                    assert forall|v: ValueV| value_wf(v) && #[trigger] is_prefix(enc_value(v), s0) implies false by {
                        assert(is_prefix(enc_type(v->Type_0), s1));
                    }
                }
                Err(e)
            },
        }
    } else if t == 6 {
        rd_function(r, Ghost(s0))
    } else if t == 7 {
        match rd_code(r) {
            Ok(c) => {
                proof {
                    assert(s0 =~= enc_value(ValueV::Operation(code_view(c))) + r.rest());
                    assert forall|v: ValueV| value_wf(v) && #[trigger] is_prefix(enc_value(v), s0) implies v
                        == ValueV::Operation(code_view(c)) by {
                        assert(is_prefix(enc_code(v->Operation_0), s1));
                    }
                }
                Ok(PengBinaryValue::Operation(c))
            },
            Err(e) => {
                proof {
                    assert forall|v: ValueV| value_wf(v) && #[trigger] is_prefix(enc_value(v), s0) implies false by {
                        assert(is_prefix(enc_code(v->Operation_0), s1));
                    }
                }
                Err(e)
            },
        }
    } else {
        Err(binary_invalid_state_error("invalid value tag"))
    }
}

/// Reads the rest of a function value, after its tag: how it takes its parameters, then
/// its code.
fn rd_function(r: &mut R, Ghost(s0): Ghost<Seq<u8>>) -> (res: Result<PengBinaryValue, PengError>)
    requires
        old(r).wf(),
        s0 == seq![6u8] + old(r).rest(),
    ensures
        final(r).wf(),
        final(r).b == old(r).b,
        res matches Ok(x) ==> s0 == enc_value(value_view(x)) + final(r).rest(),
        forall|v: ValueV|
            value_wf(v) && #[trigger] is_prefix(enc_value(v), s0) ==> (res matches Ok(x)
                && value_view(x) == v),
        res matches Err(e) ==> e is InvalidState,
    decreases s0.len(), 0nat,
{
    let ghost s1 = r.rest();
    proof {
        lemma_fixed_lens();
        assert forall|v: ValueV| value_wf(v) && #[trigger] is_prefix(enc_value(v), s0) implies v is Function
            && is_prefix(seq![params_tag(v->params)] + (enc_len(params_count(v->params) as nat) + enc_code(
            v->code)), s1) by {
            lemma_value_split(v);
            lemma_prefix_tag(6u8, value_tag(v), value_body(v), s0, s1);
            lemma_params_split(v->params);
            assert(value_body(v) =~= seq![params_tag(v->params)] + (enc_len(params_count(v->params) as nat)
                + enc_code(v->code)));
        }
    }
    let t = match r.u8() {
        Ok(v) => v,
        Err(e) => {
            proof {
                assert forall|v: ValueV| value_wf(v) && #[trigger] is_prefix(enc_value(v), s0) implies false by {
                }
            }
            return Err(e);
        },
    };
    let ghost s2 = r.rest();
    proof {
        assert forall|v: ValueV| value_wf(v) && #[trigger] is_prefix(enc_value(v), s0) implies params_tag(v->params)
            == t && is_prefix(enc_len(params_count(v->params) as nat) + enc_code(v->code), s2) by {
            lemma_prefix_tag(t, params_tag(v->params), enc_len(params_count(v->params) as nat) + enc_code(
                v->code), s1, s2);
        }
    }
    let n = match r.len() {
        Ok(v) => v,
        Err(e) => {
            proof {
                assert forall|v: ValueV| value_wf(v) && #[trigger] is_prefix(enc_value(v), s0) implies false by {
                    lemma_prefix_front(enc_len(params_count(v->params) as nat), enc_code(v->code), s2);
                }
            }
            return Err(e);
        },
    };
    let ghost s3 = r.rest();
    proof {
        assert forall|v: ValueV| value_wf(v) && #[trigger] is_prefix(enc_value(v), s0) implies params_count(
            v->params) == n && is_prefix(enc_code(v->code), s3) by {
            lemma_prefix_front(enc_len(params_count(v->params) as nat), enc_code(v->code), s2);
            lemma_prefix_concat(enc_len(params_count(v->params) as nat), enc_code(v->code), s2, s3);
        }
    }
    let params = if t == 0 {
        PengBytecodeFunctionParams::Fixed(n)
    } else if t == 1 {
        PengBytecodeFunctionParams::Variadic(n)
    } else {
        return Err(binary_invalid_state_error("invalid function params tag"));
    };
    proof {
        assert forall|v: ValueV| value_wf(v) && #[trigger] is_prefix(enc_value(v), s0) implies v->params
            == params by {
        }
    }
    match rd_code(r) {
        Ok(code) => {
            let ghost want = ValueV::Function { code: code_view(code), params };
            proof {
                lemma_params_split(params);
                assert(s0 =~= enc_value(want) + r.rest());
                assert forall|v: ValueV| value_wf(v) && #[trigger] is_prefix(enc_value(v), s0) implies v
                    == want by {
                    assert(is_prefix(enc_code(v->code), s3));
                }
            }
            Ok(PengBinaryValue::Function { code, params })
        },
        Err(e) => {
            proof {
                assert forall|v: ValueV| value_wf(v) && #[trigger] is_prefix(enc_value(v), s0) implies false by {
                    assert(is_prefix(enc_code(v->code), s3));
                }
            }
            Err(e)
        },
    }
}

} // verus!

verus! {

#[verifier::loop_isolation(false)]
fn rd_heap(r: &mut R) -> (res: Result<Vec<PengBinaryHeapValue>, PengError>)
    requires
        old(r).wf(),
    ensures
        final(r).wf(),
        final(r).b == old(r).b,
        res matches Ok(x) ==> old(r).rest() == heap_section(x@.map_values(|e: PengBinaryHeapValue| heap_value_view(e))) + final(r).rest(),
        forall|v: Seq<(u32, ValueV)>|
            (forall|j: int| 0 <= j < v.len() ==> #[trigger] value_wf(v[j].1)) && #[trigger] is_prefix(heap_section(v), old(r).rest()) ==> (res matches Ok(x)
            && x@.map_values(|e: PengBinaryHeapValue| heap_value_view(e)) == v),
        res matches Err(e) ==> e is InvalidState,
{
    let ghost f = |x: (u32, ValueV)| enc_heap_entry(x);
    let ghost s0 = r.rest();
    proof {
        lemma_fixed_lens();
        assert forall|v: Seq<(u32, ValueV)>| #[trigger] is_prefix(heap_section(v), s0) implies v.len() <= usize::MAX
            && is_prefix(enc_len(v.len()), s0) by {
            assert forall|x: (u32, ValueV)| #[trigger] f(x).len() >= 1 by {
                lemma_fixed_lens();
            }
            crate::binary::encoding::lemma_enc_list_len(v, f);
            lemma_prefix_front(enc_len(v.len()), enc_list(v, f), s0);
        }
    }
    let n = match r.len() {
        Ok(v) => v,
        Err(e) => return Err(e),
    };
    let ghost s1 = r.rest();
    proof {
        assert forall|v: Seq<(u32, ValueV)>| #[trigger] is_prefix(heap_section(v), s0) implies v.len() == n
            && is_prefix(enc_list(v, f), s1) by {
            lemma_prefix_concat(enc_len(v.len()), enc_list(v, f), s0, s1);
        }
    }
    let mut o: Vec<PengBinaryHeapValue> = Vec::new();
    let mut i: usize = 0;
    while i < n
        invariant
            r.wf(),
            r.b == old(r).b,
            i <= n,
            o@.len() == i,
            f == (|x: (u32, ValueV)| enc_heap_entry(x)),
            s1 == enc_list(o@.map_values(|e: PengBinaryHeapValue| heap_value_view(e)), f) + r.rest(),
            forall|vs: Seq<(u32, ValueV)>|
                (forall|j: int| 0 <= j < vs.len() ==> #[trigger] value_wf(vs[j].1)) && vs.len() == n && #[trigger] is_prefix(enc_list(vs, f), s1) ==> o@.map_values(|e: PengBinaryHeapValue| heap_value_view(e))
                    == vs.take(i as int),
        decreases n - i,
    {
        let ghost si = r.rest();
        proof {
            assert forall|vs: Seq<(u32, ValueV)>|
                (forall|j: int| 0 <= j < vs.len() ==> #[trigger] value_wf(vs[j].1)) && vs.len() == n && #[trigger] is_prefix(enc_list(vs, f), s1) implies is_prefix(
                enc_heap_entry(vs[i as int]),
                si,
            ) by {
                lemma_list_step(vs, i as int, f, s1, si);
            }
        }
        let x = match rd_heap_entry(r) {
            Ok(v) => v,
            Err(e) => {
                proof {
                    assert forall|v: Seq<(u32, ValueV)>|
                        (forall|j: int| 0 <= j < v.len() ==> #[trigger] value_wf(v[j].1)) && #[trigger] is_prefix(heap_section(v), s0) implies false by {
                        assert(is_prefix(enc_list(v, f), s1));
                        assert(value_wf(v[i as int].1));
                        assert(is_prefix(enc_heap_entry(v[i as int]), si));
                    }
                }
                return Err(e);
            },
        };
        let ghost ghost_o = o@;
        let ghost ex = heap_value_view(x);
        o.push(x);
        proof {
            assert(o@.map_values(|e: PengBinaryHeapValue| heap_value_view(e)) =~= ghost_o.map_values(|e: PengBinaryHeapValue| heap_value_view(e)).push(ex));
            crate::binary::encoding::lemma_enc_list_push(ghost_o.map_values(|e: PengBinaryHeapValue| heap_value_view(e)), ex, f);
            assert(s1 =~= enc_list(o@.map_values(|e: PengBinaryHeapValue| heap_value_view(e)), f) + r.rest());
            assert forall|vs: Seq<(u32, ValueV)>|
                (forall|j: int| 0 <= j < vs.len() ==> #[trigger] value_wf(vs[j].1)) && vs.len() == n && #[trigger] is_prefix(enc_list(vs, f), s1) implies o@.map_values(|e: PengBinaryHeapValue| heap_value_view(e))
                    == vs.take(i + 1) by {
                assert(value_wf(vs[i as int].1));
                assert(is_prefix(enc_heap_entry(vs[i as int]), si));
                assert(vs.take(i + 1) =~= vs.take(i as int).push(vs[i as int]));
            }
        }
        i = i + 1;
    }
    proof {
        assert(s0 =~= heap_section(o@.map_values(|e: PengBinaryHeapValue| heap_value_view(e))) + r.rest());
        assert forall|v: Seq<(u32, ValueV)>|
            (forall|j: int| 0 <= j < v.len() ==> #[trigger] value_wf(v[j].1)) && #[trigger] is_prefix(heap_section(v), s0) implies o@.map_values(|e: PengBinaryHeapValue| heap_value_view(e)) == v by {
            assert(is_prefix(enc_list(v, f), s1));
            assert(v.take(n as int) =~= v);
        }
    }
    Ok(o)
}

#[verifier::loop_isolation(false)]
fn rd_globals(r: &mut R) -> (res: Result<Vec<PengBinaryGlobal>, PengError>)
    requires
        old(r).wf(),
    ensures
        final(r).wf(),
        final(r).b == old(r).b,
        res matches Ok(x) ==> old(r).rest() == globals_section(x@.map_values(|e: PengBinaryGlobal| global_view(e))) + final(r).rest(),
        forall|v: Seq<GlobalV>|
            true && #[trigger] is_prefix(globals_section(v), old(r).rest()) ==> (res matches Ok(x)
            && x@.map_values(|e: PengBinaryGlobal| global_view(e)) == v),
        res matches Err(e) ==> e is InvalidState,
{
    let ghost f = |x: GlobalV| enc_global(x);
    let ghost s0 = r.rest();
    proof {
        lemma_fixed_lens();
        assert forall|v: Seq<GlobalV>| #[trigger] is_prefix(globals_section(v), s0) implies v.len() <= usize::MAX
            && is_prefix(enc_len(v.len()), s0) by {
            assert forall|x: GlobalV| #[trigger] f(x).len() >= 1 by {
                lemma_enc_text_len(x.name);
            }
            crate::binary::encoding::lemma_enc_list_len(v, f);
            lemma_prefix_front(enc_len(v.len()), enc_list(v, f), s0);
        }
    }
    let n = match r.len() {
        Ok(v) => v,
        Err(e) => return Err(e),
    };
    let ghost s1 = r.rest();
    proof {
        assert forall|v: Seq<GlobalV>| #[trigger] is_prefix(globals_section(v), s0) implies v.len() == n
            && is_prefix(enc_list(v, f), s1) by {
            lemma_prefix_concat(enc_len(v.len()), enc_list(v, f), s0, s1);
        }
    }
    let mut o: Vec<PengBinaryGlobal> = Vec::new();
    let mut i: usize = 0;
    while i < n
        invariant
            r.wf(),
            r.b == old(r).b,
            i <= n,
            o@.len() == i,
            f == (|x: GlobalV| enc_global(x)),
            s1 == enc_list(o@.map_values(|e: PengBinaryGlobal| global_view(e)), f) + r.rest(),
            forall|vs: Seq<GlobalV>|
                true && vs.len() == n && #[trigger] is_prefix(enc_list(vs, f), s1) ==> o@.map_values(|e: PengBinaryGlobal| global_view(e))
                    == vs.take(i as int),
        decreases n - i,
    {
        let ghost si = r.rest();
        proof {
            assert forall|vs: Seq<GlobalV>|
                true && vs.len() == n && #[trigger] is_prefix(enc_list(vs, f), s1) implies is_prefix(
                enc_global(vs[i as int]),
                si,
            ) by {
                lemma_list_step(vs, i as int, f, s1, si);
            }
        }
        let x = match rd_global(r) {
            Ok(v) => v,
            Err(e) => {
                proof {
                    assert forall|v: Seq<GlobalV>|
                        true && #[trigger] is_prefix(globals_section(v), s0) implies false by {
                        assert(is_prefix(enc_list(v, f), s1));
                        assert(true);
                        assert(is_prefix(enc_global(v[i as int]), si));
                    }
                }
                return Err(e);
            },
        };
        let ghost ghost_o = o@;
        let ghost ex = global_view(x);
        o.push(x);
        proof {
            assert(o@.map_values(|e: PengBinaryGlobal| global_view(e)) =~= ghost_o.map_values(|e: PengBinaryGlobal| global_view(e)).push(ex));
            crate::binary::encoding::lemma_enc_list_push(ghost_o.map_values(|e: PengBinaryGlobal| global_view(e)), ex, f);
            assert(s1 =~= enc_list(o@.map_values(|e: PengBinaryGlobal| global_view(e)), f) + r.rest());
            assert forall|vs: Seq<GlobalV>|
                true && vs.len() == n && #[trigger] is_prefix(enc_list(vs, f), s1) implies o@.map_values(|e: PengBinaryGlobal| global_view(e))
                    == vs.take(i + 1) by {
                assert(true);
                assert(is_prefix(enc_global(vs[i as int]), si));
                assert(vs.take(i + 1) =~= vs.take(i as int).push(vs[i as int]));
            }
        }
        i = i + 1;
    }
    proof {
        assert(s0 =~= globals_section(o@.map_values(|e: PengBinaryGlobal| global_view(e))) + r.rest());
        assert forall|v: Seq<GlobalV>|
            true && #[trigger] is_prefix(globals_section(v), s0) implies o@.map_values(|e: PengBinaryGlobal| global_view(e)) == v by {
            assert(is_prefix(enc_list(v, f), s1));
            assert(v.take(n as int) =~= v);
        }
    }
    Ok(o)
}

} // verus!

verus! {

/// Reads one heap entry: its id, then its value.
fn rd_heap_entry(r: &mut R) -> (res: Result<PengBinaryHeapValue, PengError>)
    requires
        old(r).wf(),
    ensures
        final(r).wf(),
        final(r).b == old(r).b,
        res matches Ok(x) ==> old(r).rest() == enc_heap_entry(heap_value_view(x)) + final(r).rest(),
        forall|v: (u32, ValueV)|
            value_wf(v.1) && #[trigger] is_prefix(enc_heap_entry(v), old(r).rest()) ==> (res matches Ok(x)
                && heap_value_view(x) == v),
        res matches Err(e) ==> e is InvalidState,
{
    let ghost s0 = r.rest();
    proof {
        lemma_fixed_lens();
    }
    let id = match r.u32() {
        Ok(v) => v,
        Err(e) => {
            proof {
                assert forall|v: (u32, ValueV)| #[trigger] is_prefix(enc_heap_entry(v), s0) implies false by {
                    lemma_prefix_front(enc_u32(v.0), enc_value(v.1), s0);
                }
            }
            return Err(e);
        },
    };
    let ghost s1 = r.rest();
    proof {
        assert forall|v: (u32, ValueV)| #[trigger] is_prefix(enc_heap_entry(v), s0) implies v.0 == id
            && is_prefix(enc_value(v.1), s1) by {
            lemma_prefix_front(enc_u32(v.0), enc_value(v.1), s0);
            lemma_prefix_same(enc_u32(id), enc_u32(v.0), s0, s1);
            lemma_u32_injective(id, v.0);
            lemma_prefix_concat(enc_u32(v.0), enc_value(v.1), s0, s1);
        }
    }
    let value = match rd_value(r) {
        Ok(v) => v,
        Err(e) => return Err(e),
    };
    let res = PengBinaryHeapValue { id: PengBinaryHeapId(id), value };
    proof {
        assert(s0 =~= enc_heap_entry(heap_value_view(res)) + r.rest());
    }
    Ok(res)
}

/// Reads one global: its name, whether it is mutable, then what it refers to.
fn rd_global(r: &mut R) -> (res: Result<PengBinaryGlobal, PengError>)
    requires
        old(r).wf(),
    ensures
        final(r).wf(),
        final(r).b == old(r).b,
        res matches Ok(x) ==> old(r).rest() == enc_global(global_view(x)) + final(r).rest(),
        forall|v: GlobalV| #[trigger] is_prefix(enc_global(v), old(r).rest()) ==> (res matches Ok(x)
            && global_view(x) == v),
        res matches Err(e) ==> e is InvalidState,
{
    let ghost s0 = r.rest();
    proof {
        assert forall|v: GlobalV| #[trigger] is_prefix(enc_global(v), s0) implies is_prefix(enc_text(v.name), s0)
            by {
            assert(enc_global(v) =~= enc_text(v.name) + (seq![if v.mutable { 1u8 } else { 0u8 }] + enc_ref(
                v.value,
            )));
            lemma_prefix_front(enc_text(v.name), seq![if v.mutable { 1u8 } else { 0u8 }] + enc_ref(v.value), s0);
        }
    }
    let name = match r.text() {
        Ok(v) => v,
        Err(e) => return Err(e),
    };
    let ghost s1 = r.rest();
    proof {
        assert forall|v: GlobalV| #[trigger] is_prefix(enc_global(v), s0) implies v.name == name@ && is_prefix(
            seq![if v.mutable { 1u8 } else { 0u8 }] + enc_ref(v.value),
            s1,
        ) by {
            let t = seq![if v.mutable { 1u8 } else { 0u8 }] + enc_ref(v.value);
            assert(enc_global(v) =~= enc_text(v.name) + t);
            lemma_prefix_concat(enc_text(v.name), t, s0, s1);
        }
    }
    let m = match r.u8() {
        Ok(v) => v,
        Err(e) => return Err(e),
    };
    let ghost s2 = r.rest();
    proof {
        assert forall|v: GlobalV| #[trigger] is_prefix(enc_global(v), s0) implies (if v.mutable { 1u8 } else {
            0u8
        }) == m && is_prefix(enc_ref(v.value), s2) by {
            lemma_prefix_tag(m, if v.mutable { 1u8 } else { 0u8 }, enc_ref(v.value), s1, s2);
        }
    }
    let mutable = if m == 0 {
        false
    } else if m == 1 {
        true
    } else {
        return Err(binary_invalid_state_error("invalid bool"));
    };
    let value = match rd_ref(r) {
        Ok(v) => v,
        Err(e) => return Err(e),
    };
    let res = PengBinaryGlobal { name, mutable, value };
    proof {
        assert(s0 =~= enc_global(global_view(res)) + r.rest());
    }
    Ok(res)
}

/// Reads the fixed part at the start of a binary.
#[verifier::rlimit(50)]
#[verifier::spinoff_prover]
fn rd_header(r: &mut R) -> (res: Result<PengBinaryHeader, PengError>)
    requires
        old(r).wf(),
    ensures
        final(r).wf(),
        final(r).b == old(r).b,
        res matches Ok(x) ==> old(r).rest() == enc_header(x) + final(r).rest(),
        forall|h: PengBinaryHeader| #[trigger] is_prefix(enc_header(h), old(r).rest()) ==> (res matches Ok(x)
            && x == h),
        res matches Err(e) ==> e is InvalidState,
{
    let ghost s0 = r.rest();
    proof {
        lemma_fixed_lens();
        assert forall|h: PengBinaryHeader| #[trigger] is_prefix(enc_header(h), s0) implies is_prefix(
            h.magic@ + (enc_u16(h.format_version) + (seq![h.arch_bits, enc_endian(h.endian)] + enc_u32(h.flags))),
            s0,
        ) by {
            assert(enc_header(h) =~= h.magic@ + (enc_u16(h.format_version) + (seq![h.arch_bits, enc_endian(h.endian)]
                + enc_u32(h.flags))));
        }
    }
    let v = match r.take(4) {
        Ok(v) => v,
        Err(e) => {
            proof {
                assert forall|h: PengBinaryHeader| #[trigger] is_prefix(enc_header(h), s0) implies false by {
                    lemma_prefix_front(h.magic@, enc_u16(h.format_version) + (seq![h.arch_bits, enc_endian(h.endian)]
                        + enc_u32(h.flags)), s0);
                }
            }
            return Err(e);
        },
    };
    let magic: [u8; 4] = [v[0], v[1], v[2], v[3]];
    let ghost s1 = r.rest();
    proof {
        assert(magic@ =~= v@);
        assert forall|h: PengBinaryHeader| #[trigger] is_prefix(enc_header(h), s0) implies h.magic == magic
            && is_prefix(enc_u16(h.format_version) + (seq![h.arch_bits, enc_endian(h.endian)] + enc_u32(h.flags)), s1)
            by {
            let t = enc_u16(h.format_version) + (seq![h.arch_bits, enc_endian(h.endian)] + enc_u32(h.flags));
            lemma_prefix_front(h.magic@, t, s0);
            lemma_prefix_same(v@, h.magic@, s0, s1);
            assert(h.magic =~= magic);
            lemma_prefix_concat(h.magic@, t, s0, s1);
        }
    }
    let format_version = match r.u16() {
        Ok(v) => v,
        Err(e) => {
            proof {
                assert forall|h: PengBinaryHeader| #[trigger] is_prefix(enc_header(h), s0) implies false by {
                    lemma_prefix_front(enc_u16(h.format_version), seq![h.arch_bits, enc_endian(h.endian)] + enc_u32(
                        h.flags), s1);
                }
            }
            return Err(e);
        },
    };
    let ghost s2 = r.rest();
    proof {
        assert forall|h: PengBinaryHeader| #[trigger] is_prefix(enc_header(h), s0) implies h.format_version
            == format_version && is_prefix(seq![h.arch_bits] + (seq![enc_endian(h.endian)] + enc_u32(h.flags)), s2)
            by {
            let t = seq![h.arch_bits, enc_endian(h.endian)] + enc_u32(h.flags);
            lemma_prefix_front(enc_u16(h.format_version), t, s1);
            lemma_prefix_same(enc_u16(format_version), enc_u16(h.format_version), s1, s2);
            lemma_u16_injective(format_version, h.format_version);
            lemma_prefix_concat(enc_u16(h.format_version), t, s1, s2);
            assert(t =~= seq![h.arch_bits] + (seq![enc_endian(h.endian)] + enc_u32(h.flags)));
        }
    }
    let arch_bits = match r.u8() {
        Ok(v) => v,
        Err(e) => {
            proof {
                assert forall|h: PengBinaryHeader| #[trigger] is_prefix(enc_header(h), s0) implies false by {
                    lemma_prefix_len(seq![h.arch_bits] + (seq![enc_endian(h.endian)] + enc_u32(h.flags)), s2);
                }
            }
            return Err(e);
        },
    };
    let ghost s3 = r.rest();
    proof {
        assert forall|h: PengBinaryHeader| #[trigger] is_prefix(enc_header(h), s0) implies h.arch_bits == arch_bits
            && is_prefix(seq![enc_endian(h.endian)] + enc_u32(h.flags), s3) by {
            lemma_prefix_tag(arch_bits, h.arch_bits, seq![enc_endian(h.endian)] + enc_u32(h.flags), s2, s3);
        }
    }
    let et = match r.u8() {
        Ok(v) => v,
        Err(e) => {
            proof {
                assert forall|h: PengBinaryHeader| #[trigger] is_prefix(enc_header(h), s0) implies false by {
                    lemma_prefix_len(seq![enc_endian(h.endian)] + enc_u32(h.flags), s3);
                }
            }
            return Err(e);
        },
    };
    let ghost s4 = r.rest();
    proof {
        assert forall|h: PengBinaryHeader| #[trigger] is_prefix(enc_header(h), s0) implies enc_endian(h.endian) == et
            && is_prefix(enc_u32(h.flags), s4) by {
            lemma_prefix_tag(et, enc_endian(h.endian), enc_u32(h.flags), s3, s4);
        }
    }
    let endian = if et == 0 {
        PengBinaryEndian::Little
    } else if et == 1 {
        PengBinaryEndian::Big
    } else {
        return Err(binary_invalid_state_error("invalid endian tag"));
    };
    let flags = match r.u32() {
        Ok(v) => v,
        Err(e) => return Err(e),
    };
    let res = PengBinaryHeader { magic, format_version, arch_bits, endian, flags };
    proof {
        assert(s0 =~= enc_header(res) + r.rest());
        assert forall|h: PengBinaryHeader| #[trigger] is_prefix(enc_header(h), s0) implies res == h by {
            lemma_prefix_same(enc_u32(flags), enc_u32(h.flags), s4, r.rest());
            lemma_u32_injective(flags, h.flags);
        }
    }
    Ok(res)
}

} // verus!

verus! {

/// Every binary the library's types can hold is well formed in the model: its values hold
/// only instructions that exist. With the contracts of `peng_binary_encode` and
/// `peng_binary_decode`, this gives that decoding what encoding wrote gives the binary back.
pub proof fn lemma_file_view_wf(g: PengBinaryFile)
    ensures
        file_wf(file_view(g)),
{
    let f = file_view(g);
    assert forall|i: int| 0 <= i < f.heap.len() implies value_wf(#[trigger] f.heap[i].1) by {
        lemma_value_view_wf(g.heap@[i].value);
    }
}

/// Reads what a binary starts its program with, if anything.
fn rd_init(r: &mut R) -> (res: Result<Option<PengBinaryRef>, PengError>)
    requires
        old(r).wf(),
    ensures
        final(r).wf(),
        final(r).b == old(r).b,
        res matches Ok(x) ==> old(r).rest() == enc_init(init_view(x)) + final(r).rest(),
        forall|v: Option<RefV>| #[trigger] is_prefix(enc_init(v), old(r).rest()) ==> (res matches Ok(x)
            && init_view(x) == v),
        res matches Err(e) ==> e is InvalidState,
{
    let ghost s0 = r.rest();
    let t = match r.u8() {
        Ok(v) => v,
        Err(e) => {
            proof {
                assert forall|v: Option<RefV>| #[trigger] is_prefix(enc_init(v), s0) implies false by {
                    assert(enc_init(v).len() >= 1);
                }
            }
            return Err(e);
        },
    };
    let ghost s1 = r.rest();
    if t == 0 {
        proof {
            assert(s0 =~= enc_init(None) + s1);
            assert forall|v: Option<RefV>| #[trigger] is_prefix(enc_init(v), s0) implies v == None::<RefV> by {
                lemma_prefix_first(enc_init(v), s0);
            }
        }
        Ok(None)
    } else if t == 1 {
        proof {
            assert forall|v: Option<RefV>| #[trigger] is_prefix(enc_init(v), s0) implies v is Some && is_prefix(
                enc_ref(v->0),
                s1,
            ) by {
                lemma_prefix_first(enc_init(v), s0);
                lemma_prefix_concat(seq![1u8], enc_ref(v->0), s0, s1);
            }
        }
        match rd_ref(r) {
            Ok(v) => {
                proof {
                    assert(s0 =~= enc_init(Some(ref_view(v))) + r.rest());
                }
                Ok(Some(v))
            },
            Err(e) => Err(e),
        }
    } else {
        proof {
            assert forall|v: Option<RefV>| #[trigger] is_prefix(enc_init(v), s0) implies false by {
                lemma_prefix_first(enc_init(v), s0);
            }
        }
        Err(binary_invalid_state_error("invalid option tag"))
    }
}

/// The bytes of a binary after its header and entry kind.
spec fn file_tail(f: FileV) -> Seq<u8> {
    heap_section(f.heap) + (globals_section(f.globals) + enc_init(f.init))
}

/// Reads a binary's heap, globals and initializer.
fn rd_file_tail(r: &mut R) -> (res: Result<
    (Vec<PengBinaryHeapValue>, Vec<PengBinaryGlobal>, Option<PengBinaryRef>),
    PengError,
>)
    requires
        old(r).wf(),
    ensures
        final(r).wf(),
        final(r).b == old(r).b,
        res matches Ok(x) ==> old(r).rest() == heap_section(
            x.0@.map_values(|e: PengBinaryHeapValue| heap_value_view(e)),
        ) + (globals_section(x.1@.map_values(|e: PengBinaryGlobal| global_view(e))) + enc_init(
            init_view(x.2),
        )) + final(r).rest(),
        forall|f: FileV|
            file_wf(f) && #[trigger] is_prefix(file_tail(f), old(r).rest()) ==> (res matches Ok(x)
                && x.0@.map_values(|e: PengBinaryHeapValue| heap_value_view(e)) == f.heap
                && x.1@.map_values(|e: PengBinaryGlobal| global_view(e)) == f.globals
                && init_view(x.2) == f.init),
        res matches Err(e) ==> e is InvalidState,
{
    let ghost s2 = r.rest();
    proof {
        assert forall|f: FileV|
            file_wf(f) && #[trigger] is_prefix(file_tail(f), s2) implies (forall|j: int|
            0 <= j < f.heap.len() ==> #[trigger] value_wf(f.heap[j].1)) && is_prefix(heap_section(f.heap), s2) by {
            assert forall|j: int| 0 <= j < f.heap.len() implies #[trigger] value_wf(f.heap[j].1) by {
                assert(value_wf(f.heap[j].1));
            }
            lemma_prefix_front(heap_section(f.heap), globals_section(f.globals) + enc_init(f.init), s2);
        }
    }
    let heap = match rd_heap(r) {
        Ok(v) => v,
        Err(e) => return Err(e),
    };
    let ghost s3 = r.rest();
    let ghost hv = heap@.map_values(|e: PengBinaryHeapValue| heap_value_view(e));
    proof {
        assert forall|f: FileV| file_wf(f) && #[trigger] is_prefix(file_tail(f), s2) implies f.heap == hv
            && is_prefix(globals_section(f.globals), s3) && is_prefix(
            globals_section(f.globals) + enc_init(f.init),
            s3,
        ) by {
            let t = globals_section(f.globals) + enc_init(f.init);
            assert forall|j: int| 0 <= j < f.heap.len() implies #[trigger] value_wf(f.heap[j].1) by {
                assert(value_wf(f.heap[j].1));
            }
            lemma_prefix_front(heap_section(f.heap), t, s2);
            lemma_prefix_concat(heap_section(f.heap), t, s2, s3);
            lemma_prefix_front(globals_section(f.globals), enc_init(f.init), s3);
        }
    }
    let globals = match rd_globals(r) {
        Ok(v) => v,
        Err(e) => return Err(e),
    };
    let ghost s4 = r.rest();
    let ghost gv = globals@.map_values(|e: PengBinaryGlobal| global_view(e));
    proof {
        assert forall|f: FileV| file_wf(f) && #[trigger] is_prefix(file_tail(f), s2) implies f.globals == gv
            && is_prefix(enc_init(f.init), s4) by {
            lemma_prefix_concat(globals_section(f.globals), enc_init(f.init), s3, s4);
        }
    }
    let init = match rd_init(r) {
        Ok(v) => v,
        Err(e) => return Err(e),
    };
    proof {
        assert(s2 =~= heap_section(hv) + (globals_section(gv) + enc_init(init_view(init))) + r.rest());
    }
    Ok((heap, globals, init))
}

/// Reads a binary from its first byte, as far as it goes.
#[verifier::rlimit(80)]
#[verifier::spinoff_prover]
fn rd_file(r: &mut R) -> (res: Result<PengBinaryFile, PengError>)
    requires
        old(r).wf(),
    ensures
        final(r).wf(),
        final(r).b == old(r).b,
        res matches Ok(x) ==> old(r).rest() == enc_file(file_view(x)) + final(r).rest(),
        forall|f: FileV|
            file_wf(f) && #[trigger] is_prefix(enc_file(f), old(r).rest()) ==> (res matches Ok(x)
                && file_view(x) == f),
        res matches Err(e) ==> e is InvalidState,
{
    let ghost s0 = r.rest();
    proof {
        assert forall|f: FileV| #[trigger] is_prefix(enc_file(f), s0) implies is_prefix(
            enc_header(f.header) + (seq![enc_entry_kind(f.entry_kind)] + file_tail(f)),
            s0,
        ) by {
            assert(enc_file(f) =~= enc_header(f.header) + (seq![enc_entry_kind(f.entry_kind)] + file_tail(f)));
        }
    }
    let header = match rd_header(r) {
        Ok(v) => v,
        Err(e) => {
            proof {
                assert forall|f: FileV| #[trigger] is_prefix(enc_file(f), s0) implies false by {
                    lemma_prefix_front(enc_header(f.header), seq![enc_entry_kind(f.entry_kind)] + file_tail(f), s0);
                }
            }
            return Err(e);
        },
    };
    let ghost s1 = r.rest();
    proof {
        assert forall|f: FileV| #[trigger] is_prefix(enc_file(f), s0) implies f.header == header && is_prefix(
            seq![enc_entry_kind(f.entry_kind)] + file_tail(f),
            s1,
        ) by {
            let t = seq![enc_entry_kind(f.entry_kind)] + file_tail(f);
            lemma_prefix_front(enc_header(f.header), t, s0);
            lemma_prefix_concat(enc_header(f.header), t, s0, s1);
        }
    }
    let k = match r.u8() {
        Ok(v) => v,
        Err(e) => {
            proof {
                assert forall|f: FileV| #[trigger] is_prefix(enc_file(f), s0) implies false by {
                    lemma_prefix_len(seq![enc_entry_kind(f.entry_kind)] + file_tail(f), s1);
                }
            }
            return Err(e);
        },
    };
    let ghost s2 = r.rest();
    proof {
        assert forall|f: FileV| #[trigger] is_prefix(enc_file(f), s0) implies enc_entry_kind(f.entry_kind) == k
            && is_prefix(file_tail(f), s2) by {
            lemma_prefix_tag(k, enc_entry_kind(f.entry_kind), file_tail(f), s1, s2);
        }
    }
    let entry_kind = if k == 0 {
        PengBinaryEntryKind::Program
    } else if k == 1 {
        PengBinaryEntryKind::Script
    } else {
        return Err(binary_invalid_state_error("invalid entry kind"));
    };
    let (heap, globals, init) = match rd_file_tail(r) {
        Ok(v) => v,
        Err(e) => return Err(e),
    };
    let file = PengBinaryFile { header, entry_kind, heap, globals, init };
    proof {
        let fv = file_view(file);
        assert(s2 == file_tail(fv) + r.rest());
        assert(s0 =~= enc_file(fv) + r.rest());
        assert forall|f: FileV| file_wf(f) && #[trigger] is_prefix(enc_file(f), s0) implies fv == f by {
            assert(is_prefix(file_tail(f), s2));
        }
    }
    Ok(file)
}

/// Reads a binary. It succeeds exactly on the bytes of a valid binary, and then gives
/// back that binary.
pub fn peng_binary_decode(bytes: &[u8]) -> (res: Result<PengBinaryFile, PengError>)
    ensures
        res matches Ok(g) ==> bytes@ == enc_file(file_view(g)) && valid_file(file_view(g)),
        forall|f: FileV|
            file_wf(f) && valid_file(f) && bytes@ == #[trigger] enc_file(f) ==> (res matches Ok(g)
                && file_view(g) == f),
        forall|f: FileV|
            file_wf(f) && #[trigger] is_prefix(enc_file(f), bytes@) && enc_file(f).len() < bytes@.len() ==> (res matches Err(
                PengError::InvalidState(m),
            ) && m@ == "invalid Penguin binary: "@ + "trailing bytes"@),
        forall|f: FileV|
            file_wf(f) && bytes@ == #[trigger] enc_file(f) && file_error(f) is Some ==> (res matches Err(
                PengError::InvalidState(m),
            ) && m@ == "invalid Penguin binary: "@ + file_error(f)->0),
        res matches Err(e) ==> e is InvalidState,
{
    let total = bytes.len();
    assert(bytes@.len() == total);
    let mut r = R { b: bytes, p: 0 };
    let ghost s0 = r.rest();
    proof {
        assert(s0 =~= bytes@);
        assert forall|f: FileV| #[trigger] enc_file(f) == s0 implies is_prefix(enc_file(f), s0) by {
            lemma_prefix_self(enc_file(f), Seq::empty());
            assert(enc_file(f) + Seq::<u8>::empty() =~= enc_file(f));
        }
    }
    let file = match rd_file(&mut r) {
        Ok(v) => v,
        Err(e) => return Err(e),
    };
    proof {
        assert(r.rest().len() == total - r.p);
        assert forall|f: FileV|
            file_wf(f) && #[trigger] is_prefix(enc_file(f), bytes@) && enc_file(f).len() < bytes@.len() implies r.p
                != total by {
            assert(is_prefix(enc_file(f), s0));
            assert(file_view(file) == f);
        }
    }
    if r.p != total {
        proof {
            assert forall|f: FileV| file_wf(f) && #[trigger] enc_file(f) == s0 implies false by {
                assert(is_prefix(enc_file(f), s0));
            }
        }
        return Err(binary_invalid_state_error("trailing bytes"));
    }
    proof {
        assert(r.rest() =~= Seq::<u8>::empty());
        assert(s0 =~= enc_file(file_view(file)));
    }
    match peng_binary_validate_file(&file) {
        Ok(()) => Ok(file),
        Err(e) => Err(e),
    }
}

} // verus!
