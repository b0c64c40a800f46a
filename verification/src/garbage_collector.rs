use vstd::prelude::*;
use crate::instruction::PengInstruction;
use crate::typing::PengType;
use crate::utils::PengHeapPtr;

verus! {

/// The heap values that a type keeps alive: the defaults of its fields, and those of
/// the element type of a vector type.
pub open spec fn type_children(value: PengType) -> Seq<PengHeapPtr>
    decreases value,
{
    match value {
        PengType::Custom(custom) => field_children(custom.fields@),
        PengType::Vector(inner) => type_children(*inner),
        _ => Seq::empty(),
    }
}

/// The defaults, in field order, of the fields that have one.
pub open spec fn field_children(
    fields: Seq<(crate::utils::PengNamePoolPtr, Option<PengHeapPtr>)>,
) -> Seq<PengHeapPtr>
    decreases fields.len(),
{
    if fields.len() == 0 {
        Seq::empty()
    } else {
        let rest = field_children(fields.drop_last());
        match fields.last().1 {
            Some(ptr) => rest.push(ptr),
            None => rest,
        }
    }
}

/// Appends to `children` the heap values that `value` keeps alive.
pub fn collect_type_children(value: &PengType, children: &mut Vec<PengHeapPtr>)
    ensures
        final(children)@ == old(children)@ + type_children(*value),
    decreases *value,
{
    match value {
        PengType::Custom(custom_type) => {
            let mut i: usize = 0;
            while i < custom_type.fields.len()
                invariant
                    i <= custom_type.fields@.len(),
                    children@ == old(children)@ + field_children(
                        custom_type.fields@.subrange(0, i as int),
                    ),
                decreases custom_type.fields@.len() - i,
            {
                assert(custom_type.fields@.subrange(0, i + 1).drop_last()
                    =~= custom_type.fields@.subrange(0, i as int));
                match custom_type.fields[i].1 {
                    Some(ptr) => children.push(ptr),
                    None => {},
                }
                i = i + 1;
            }
            assert(custom_type.fields@.subrange(0, i as int) =~= custom_type.fields@);
        },
        PengType::Vector(inner) => {
            collect_type_children(inner, children);
        },
        _ => {
            assert(old(children)@ + Seq::<PengHeapPtr>::empty() =~= old(children)@);
        },
    }
}

/// Appends to `children` the heap value that `instruction` names, if it names one.
pub fn collect_instruction_children(instruction: &PengInstruction, children: &mut Vec<PengHeapPtr>)
    ensures
        final(children)@ == match *instruction {
            PengInstruction::PushHeap(ptr) => old(children)@.push(ptr),
            PengInstruction::PushHeapRef(ptr) => old(children)@.push(ptr),
            _ => old(children)@,
        },
{
    match instruction {
        PengInstruction::PushHeap(ptr) | PengInstruction::PushHeapRef(ptr) => {
            children.push(*ptr);
        },
        _ => {},
    }
}

} // verus!
