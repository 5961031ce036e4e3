//! The assembler: from a program without labels to its bytes.
//!
//! Each instruction becomes its opcode word and then one byte for each
//! immediate or address, in the order of the operands. Every register and
//! condition among the operands is or-ed into the field of the word. A
//! conditional branch becomes its word and the two bytes of its split
//! target, which is the first immediate or address among its operands, or
//! zero where it has none. Data is copied as it is.

use vstd::prelude::*;
use crate::ast::{FuncBody, FuncBodyView, Instruction, InstructionView, Opcode, Operand, OperandView};
use crate::layout::{
    opcode_word, spec_opcode_word, spec_target_high, spec_target_low, target_high, target_low,
};
use crate::lower_labels::program_size;
use crate::theorems::theorem_size_is_encoded_length;

verus! {

/// Why a program cannot be assembled.
#[derive(Debug, Clone, PartialEq, Eq)]
pub enum AssembleError {
    /// An operand is still the label of this name.
    UnresolvedLabel(String),
    /// The program still holds the label marker of this name.
    LabelMarker(String),
}

/// Model of an [`AssembleError`].
pub enum AssembleErrorView {
    UnresolvedLabel(Seq<char>),
    LabelMarker(Seq<char>),
}

impl View for AssembleError {
    type V = AssembleErrorView;

    open spec fn view(&self) -> AssembleErrorView {
        match *self {
            AssembleError::UnresolvedLabel(l) => AssembleErrorView::UnresolvedLabel(l@),
            AssembleError::LabelMarker(l) => AssembleErrorView::LabelMarker(l@),
        }
    }
}

/// What an operand adds to the field of the opcode word: the low three bits
/// of a register index, the code of a condition, nothing else.
pub open spec fn operand_field(o: OperandView) -> u8 {
    match o {
        OperandView::Register(r) => r & 7,
        OperandView::Condition(c) => c.spec_code(),
        _ => 0,
    }
}

/// The field of the opcode word: what all the operands add to it, or-ed.
pub open spec fn field_bits(operands: Seq<OperandView>) -> u8
    decreases operands.len(),
{
    if operands.len() == 0 {
        0
    } else {
        field_bits(operands.drop_last()) | operand_field(operands.last())
    }
}

/// The byte that an operand puts behind the opcode word, if it puts one.
pub open spec fn operand_bytes(o: OperandView) -> Seq<u8> {
    match o {
        OperandView::Immediate(v) => seq![v],
        OperandView::Address(a) => seq![a],
        _ => Seq::empty(),
    }
}

/// The bytes that the operands put behind the opcode word, in their order.
pub open spec fn trailing_bytes(operands: Seq<OperandView>) -> Seq<u8>
    decreases operands.len(),
{
    if operands.len() == 0 {
        Seq::empty()
    } else {
        trailing_bytes(operands.drop_last()) + operand_bytes(operands.last())
    }
}

/// The target of a branch: the first immediate or address among its
/// operands, zero where there is none.
pub open spec fn branch_target(operands: Seq<OperandView>) -> u8 {
    if trailing_bytes(operands).len() > 0 {
        trailing_bytes(operands)[0]
    } else {
        0
    }
}

/// The bytes of an instruction without labels.
pub open spec fn encode_instruction(i: InstructionView) -> Seq<u8> {
    let word = spec_opcode_word(i.opcode.spec_code(), field_bits(i.operands));
    if i.opcode == Opcode::Brc {
        let target = branch_target(i.operands);
        seq![word, spec_target_high(target), spec_target_low(target)]
    } else {
        seq![word] + trailing_bytes(i.operands)
    }
}

/// The bytes of a program item; a label marker has none.
pub open spec fn encode_item(b: FuncBodyView) -> Seq<u8> {
    match b {
        FuncBodyView::Instruction(i) => encode_instruction(i),
        FuncBodyView::Data(d) => d,
        FuncBodyView::Label(_) => Seq::empty(),
    }
}

/// The bytes of a program: those of its items, in their order.
pub open spec fn encode_program(items: Seq<FuncBodyView>) -> Seq<u8>
    decreases items.len(),
{
    if items.len() == 0 {
        Seq::empty()
    } else {
        encode_program(items.drop_last()) + encode_item(items.last())
    }
}

/// The name of the first label among the operands, if there is one.
pub open spec fn first_label(operands: Seq<OperandView>) -> Option<Seq<char>>
    decreases operands.len(),
{
    if operands.len() == 0 {
        None
    } else {
        match first_label(operands.drop_last()) {
            Some(l) => Some(l),
            None => match operands.last() {
                OperandView::Label(l) => Some(l),
                _ => None,
            },
        }
    }
}

/// What keeps an item from being assembled, if anything does: the first
/// label among the operands of an instruction, or the item being a label
/// marker.
pub open spec fn item_fault(b: FuncBodyView) -> Option<AssembleErrorView> {
    match b {
        FuncBodyView::Instruction(i) => match first_label(i.operands) {
            Some(l) => Some(AssembleErrorView::UnresolvedLabel(l)),
            None => None,
        },
        FuncBodyView::Label(l) => Some(AssembleErrorView::LabelMarker(l)),
        FuncBodyView::Data(_) => None,
    }
}

/// What keeps a program from being assembled, if anything does: the fault
/// of the first item that has one.
pub open spec fn first_fault(items: Seq<FuncBodyView>) -> Option<AssembleErrorView>
    decreases items.len(),
{
    if items.len() == 0 {
        None
    } else {
        match first_fault(items.drop_last()) {
            Some(e) => Some(e),
            None => item_fault(items.last()),
        }
    }
}

/// True for a program that holds no label, neither as a marker nor as an
/// operand.
pub open spec fn is_resolved(items: Seq<FuncBodyView>) -> bool {
    forall|k: int|
        0 <= k < items.len() ==> match #[trigger] items[k] {
            FuncBodyView::Instruction(i) => forall|j: int|
                0 <= j < i.operands.len() ==> !(#[trigger] i.operands[j] is Label),
            FuncBodyView::Label(_) => false,
            FuncBodyView::Data(_) => true,
        }
}

/// Appends the bytes of an instruction to `out`, or returns the name of the
/// first label among its operands and leaves `out` as it is.
fn assemble_instruction(out: &mut Vec<u8>, instr: &Instruction) -> (r: Result<(), String>)
    ensures
        match r {
            Ok(_) => first_label(instr@.operands) is None && final(out)@ == old(out)@
                + encode_instruction(instr@),
            Err(l) => first_label(instr@.operands) == Some(l@) && final(out)@ == old(out)@,
        },
{
    let ghost ops = instr@.operands;
    let mut field: u8 = 0;
    let mut trailing: Vec<u8> = Vec::new();
    let mut k: usize = 0;
    assert(ops.take(0).len() == 0);
    while k < instr.operands.len()
        invariant
            k <= instr.operands.len(),
            ops == instr@.operands,
            first_label(ops.take(k as int)) is None,
            field == field_bits(ops.take(k as int)),
            trailing@ == trailing_bytes(ops.take(k as int)),
            *out == *old(out),
        decreases instr.operands.len() - k,
    {
        proof {
            assert(ops.take(k + 1).drop_last() =~= ops.take(k as int));
            assert(ops.take(k + 1).last() == instr.operands[k as int]@);
        }
        match &instr.operands[k] {
            Operand::Immediate(v) => {
                trailing.push(*v);
            },
            Operand::Address(a) => {
                trailing.push(*a);
            },
            Operand::Register(r) => {
                field = field | (*r & 7);
            },
            Operand::Condition(c) => {
                field = field | c.code();
            },
            Operand::Label(l) => {
                proof {
                    lemma_first_label_stays(ops, k + 1);
                }
                return Err(l.clone());
            },
        }
        proof {
            assert(field | 0 == field) by (bit_vector);
            assert(trailing@ =~= trailing_bytes(ops.take(k + 1)));
        }
        k += 1;
    }
    assert(ops.take(k as int) =~= ops);
    let word = opcode_word(instr.opcode.code(), field);
    out.push(word);
    if instr.opcode == Opcode::Brc {
        let target: u8 = if trailing.len() > 0 {
            trailing[0]
        } else {
            0
        };
        out.push(target_high(target));
        out.push(target_low(target));
    } else {
        let mut j: usize = 0;
        while j < trailing.len()
            invariant
                j <= trailing.len(),
                out@ == old(out)@.push(word) + trailing@.take(j as int),
            decreases trailing.len() - j,
        {
            out.push(trailing[j]);
            assert(out@ =~= old(out)@.push(word) + trailing@.take(j + 1));
            j += 1;
        }
        assert(trailing@.take(j as int) =~= trailing@);
    }
    assert(out@ =~= old(out)@ + encode_instruction(instr@));
    Ok(())
}

/// A label that is the first among the leading operands is the first among
/// all of them.
proof fn lemma_first_label_stays(operands: Seq<OperandView>, k: int)
    requires
        0 <= k <= operands.len(),
        first_label(operands.take(k)) is Some,
    ensures
        first_label(operands) == first_label(operands.take(k)),
    decreases operands.len() - k,
{
    if k < operands.len() {
        assert(operands.take(k + 1).drop_last() =~= operands.take(k));
        lemma_first_label_stays(operands, k + 1);
    } else {
        assert(operands.take(k) =~= operands);
    }
}

/// A fault that is the first among the leading items is the first among all
/// of them.
proof fn lemma_first_fault_stays(items: Seq<FuncBodyView>, k: int)
    requires
        0 <= k <= items.len(),
        first_fault(items.take(k)) is Some,
    ensures
        first_fault(items) == first_fault(items.take(k)),
    decreases items.len() - k,
{
    if k < items.len() {
        assert(items.take(k + 1).drop_last() =~= items.take(k));
        lemma_first_fault_stays(items, k + 1);
    } else {
        assert(items.take(k) =~= items);
    }
}

/// Packs a program into bytes.
///
/// Succeeds exactly on the programs that hold no label. On any other the
/// error names the first label in program order, a marker or an operand,
/// and no bytes are returned. The bytes are as many as the label pass
/// counts for the program.
pub fn assemble(instrs: Vec<FuncBody>) -> (r: Result<Vec<u8>, AssembleError>)
    ensures
        match r {
            Ok(bytes) => {
                &&& first_fault(instrs.deep_view()) is None
                &&& bytes@ == encode_program(instrs.deep_view())
                &&& bytes.len() == program_size(instrs.deep_view())
            },
            Err(e) => first_fault(instrs.deep_view()) == Some(e@),
        },
{
    let ghost items = instrs.deep_view();
    let mut ret: Vec<u8> = Vec::new();
    let mut k: usize = 0;
    assert(items.take(0).len() == 0);
    while k < instrs.len()
        invariant
            k <= instrs.len(),
            items == instrs.deep_view(),
            first_fault(items.take(k as int)) is None,
            ret@ == encode_program(items.take(k as int)),
        decreases instrs.len() - k,
    {
        proof {
            assert(items.take(k + 1).drop_last() =~= items.take(k as int));
            assert(items.take(k + 1).last() == instrs[k as int]@);
        }
        match &instrs[k] {
            FuncBody::Instruction(instr) => {
                match assemble_instruction(&mut ret, instr) {
                    Ok(_) => {},
                    Err(l) => {
                        proof {
                            lemma_first_fault_stays(items, k + 1);
                        }
                        return Err(AssembleError::UnresolvedLabel(l));
                    },
                }
            },
            FuncBody::Data(d) => {
                let mut j: usize = 0;
                let ghost before = ret@;
                while j < d.len()
                    invariant
                        j <= d.len(),
                        ret@ == before + d@.take(j as int),
                    decreases d.len() - j,
                {
                    ret.push(d[j]);
                    assert(ret@ =~= before + d@.take(j + 1));
                    j += 1;
                }
                assert(d@.take(j as int) =~= d@);
            },
            FuncBody::Label(l) => {
                proof {
                    lemma_first_fault_stays(items, k + 1);
                }
                return Err(AssembleError::LabelMarker(l.clone()));
            },
        }
        k += 1;
    }
    proof {
        assert(items.take(k as int) =~= items);
        theorem_size_is_encoded_length(items);
    }
    Ok(ret)
}

} // verus!
