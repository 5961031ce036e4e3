//! What holds of the passes together: the disassembler undoes the
//! assembler, the label pass and the assembler agree on sizes, and the
//! listing of any bytes covers them.

use vstd::prelude::*;
use crate::assembler::{
    encode_instruction, encode_program, field_bits, first_fault, first_label, is_resolved,
    trailing_bytes,
};
use crate::ast::{
    lemma_condition_code_inverse, lemma_opcode_code_inverse, FuncBody, FuncBodyView,
    InstructionView, Opcode, OperandView,
};
use crate::disassembler::{
    consumed, decoded, first_listing, listed_bytes, operation_text, ListingView,
};
use crate::layout::{
    extra_bytes, footprint, lemma_target_inverse, lemma_well_formed_footprint, lemma_word_inverse,
    spec_shape, spec_shape_footprint, spec_word_code, well_formed, Shape,
};
use crate::lower_labels::{
    first_duplicate, first_error, label_table, lower_instruction, lower_items, lower_labels,
    lower_operand, operands_error, program_size, resolve, ResolveError, ResolveErrorView,
};
use crate::loader::{binary_text, lemma_loaded_line, loaded, LoadErrorView};
use crate::render::{listing_text, operand_text};
use crate::text::{binary, join, lemma_join_front};

verus! {

/// The field of a well-formed instruction is its register or the code of
/// its condition, and zero where it has neither.
proof fn lemma_well_formed_field(i: InstructionView)
    requires
        well_formed(i),
    ensures
        field_bits(i.operands) < 8,
        i.operands.len() > 0 && i.operands[0] is Register ==> field_bits(i.operands)
            == i.operands[0]->Register_0,
        i.operands.len() > 0 && i.operands[0] is Condition ==> field_bits(i.operands)
            == i.operands[0]->Condition_0.spec_code(),
{
    reveal_with_fuel(field_bits, 3);
    let ops = i.operands;
    if ops.len() == 2 {
        assert(ops.drop_last().last() == ops[0]);
    }
    assert(forall|r: u8| r < 8 ==> (0u8 | (r & 7)) | 0 == r && 0u8 | (r & 7) == r) by (bit_vector);
    assert(forall|c: u8| (0u8 | c) | 0 == c) by (bit_vector);
    assert(0u8 | 0u8 == 0) by (bit_vector);
    if ops.len() > 0 && ops[0] is Condition {
        lemma_condition_code_inverse(ops[0]->Condition_0);
    }
}

/// The bytes behind the word of a well-formed instruction are its
/// immediate or its address.
proof fn lemma_well_formed_trailing(i: InstructionView)
    requires
        well_formed(i),
    ensures
        trailing_bytes(i.operands) == match spec_shape(i.opcode) {
            Shape::Bare | Shape::Reg => Seq::<u8>::empty(),
            Shape::Imm => seq![i.operands[0]->Immediate_0],
            Shape::RegImm | Shape::Branch => seq![i.operands[1]->Immediate_0],
            Shape::Addr => seq![i.operands[0]->Address_0],
        },
{
    reveal_with_fuel(trailing_bytes, 3);
    let ops = i.operands;
    if ops.len() == 2 {
        assert(ops.drop_last().last() == ops[0]);
    }
    assert(trailing_bytes(ops) =~= match spec_shape(i.opcode) {
        Shape::Bare | Shape::Reg => Seq::<u8>::empty(),
        Shape::Imm => seq![i.operands[0]->Immediate_0],
        Shape::RegImm | Shape::Branch => seq![i.operands[1]->Immediate_0],
        Shape::Addr => seq![i.operands[0]->Address_0],
    });
}

/// The text of a well-formed instruction is its mnemonic and, each behind
/// a blank, its operands.
proof fn lemma_well_formed_text(i: InstructionView)
    requires
        well_formed(i),
    ensures
        listing_text(i) == if i.operands.len() == 0 {
            i.opcode.spec_mnemonic()
        } else if i.operands.len() == 1 {
            i.opcode.spec_mnemonic() + " "@ + operand_text(i.operands[0])
        } else {
            i.opcode.spec_mnemonic() + " "@ + operand_text(i.operands[0]) + " "@ + operand_text(
                i.operands[1],
            )
        },
{
    reveal_with_fuel(join, 3);
    let texts = i.operands.map_values(|o: OperandView| operand_text(o));
    if texts.len() == 2 {
        assert(texts.drop_last().len() == 1);
        assert(texts.drop_last()[0] == texts[0]);
        assert(join(texts, " "@) == texts[0] + " "@ + texts[1]);
        assert(i.opcode.spec_mnemonic() + " "@ + (texts[0] + " "@ + texts[1])
            =~= i.opcode.spec_mnemonic() + " "@ + texts[0] + " "@ + texts[1]);
    }
}

/// The bytes of a well-formed instruction are read back as one instruction
/// that takes them all and has the text of the instruction.
proof fn lemma_encoded_instruction(i: InstructionView)
    requires
        well_formed(i),
    ensures
        encode_instruction(i).len() == footprint(i),
        encode_instruction(i).len() == spec_shape_footprint(spec_shape(i.opcode)),
        Opcode::spec_from_code(spec_word_code(encode_instruction(i)[0])) == Some(i.opcode),
        consumed(encode_instruction(i)) == encode_instruction(i).len(),
        operation_text(encode_instruction(i)) == listing_text(i),
{
    let bytes = encode_instruction(i);
    lemma_opcode_code_inverse(i.opcode);
    lemma_word_inverse(i.opcode.spec_code(), field_bits(i.operands));
    lemma_well_formed_field(i);
    lemma_well_formed_trailing(i);
    lemma_well_formed_text(i);
    lemma_well_formed_footprint(i);
    if spec_shape(i.opcode) == Shape::Branch {
        lemma_target_inverse(i.operands[1]->Immediate_0);
        lemma_condition_code_inverse(i.operands[0]->Condition_0);
    }
    assert(consumed(bytes) == bytes.len());
    assert(operation_text(bytes) =~= listing_text(i));
}

/// The disassembler undoes the assembler: the listing of the bytes of a
/// well-formed instruction is one entry, which holds all the bytes and the
/// text of the instruction.
pub proof fn theorem_round_trip(i: InstructionView, address: nat)
    requires
        well_formed(i),
    ensures
        decoded(encode_instruction(i), address) == seq![
            ListingView { address, bytes: encode_instruction(i), text: listing_text(i) },
        ],
{
    let bytes = encode_instruction(i);
    lemma_encoded_instruction(i);
    assert(bytes.take(bytes.len() as int) =~= bytes);
    assert(bytes.skip(bytes.len() as int).len() == 0);
    assert(decoded(bytes.skip(bytes.len() as int), address + bytes.len()) =~= Seq::empty());
    assert(decoded(bytes, address) =~= seq![first_listing(bytes, address)]);
}

/// The listing that a program of instructions should get: one entry for
/// each instruction, with its bytes and its text, at the address where its
/// bytes start.
pub open spec fn program_listing(instructions: Seq<InstructionView>, address: nat) -> Seq<
    ListingView,
>
    decreases instructions.len(),
{
    if instructions.len() == 0 {
        Seq::empty()
    } else {
        let first = instructions[0];
        seq![ListingView { address, bytes: encode_instruction(first), text: listing_text(first) }]
            + program_listing(
            instructions.drop_first(),
            address + encode_instruction(first).len(),
        )
    }
}

/// The instructions as program items.
pub open spec fn as_items(instructions: Seq<InstructionView>) -> Seq<FuncBodyView> {
    instructions.map_values(|i: InstructionView| FuncBodyView::Instruction(i))
}

/// The bytes of two programs, one behind the other, are the bytes of the
/// first and then those of the second.
pub proof fn lemma_encode_program_concat(a: Seq<FuncBodyView>, b: Seq<FuncBodyView>)
    ensures
        encode_program(a + b) == encode_program(a) + encode_program(b),
    decreases b.len(),
{
    if b.len() == 0 {
        assert(a + b =~= a);
        assert(encode_program(a) + encode_program(b) =~= encode_program(a));
    } else {
        lemma_encode_program_concat(a, b.drop_last());
        assert((a + b).drop_last() =~= a + b.drop_last());
        assert(encode_program(a + b) =~= encode_program(a) + encode_program(b));
    }
}

/// The disassembler undoes the assembler on whole programs: the listing of
/// the bytes of a program of well-formed instructions has one entry for
/// each instruction, in their order, with the bytes and the text of the
/// instruction, at the address where its bytes start.
pub proof fn theorem_program_round_trip(instructions: Seq<InstructionView>, address: nat)
    requires
        forall|k: int| 0 <= k < instructions.len() ==> well_formed(#[trigger] instructions[k]),
    ensures
        decoded(encode_program(as_items(instructions)), address) == program_listing(
            instructions,
            address,
        ),
    decreases instructions.len(),
{
    let items = as_items(instructions);
    if instructions.len() == 0 {
        assert(encode_program(items).len() == 0);
    } else {
        let first = instructions[0];
        let rest = instructions.drop_first();
        let head = encode_instruction(first);
        let tail = encode_program(as_items(rest));
        assert(items =~= seq![FuncBodyView::Instruction(first)] + as_items(rest));
        lemma_encode_program_concat(seq![FuncBodyView::Instruction(first)], as_items(rest));
        reveal_with_fuel(encode_program, 2);
        assert(seq![FuncBodyView::Instruction(first)].drop_last().len() == 0);
        assert(encode_program(seq![FuncBodyView::Instruction(first)]) =~= head);
        let bytes = encode_program(items);
        assert(bytes == head + tail);
        lemma_encoded_instruction(first);
        assert(bytes[0] == head[0]);
        assert(consumed(bytes) == head.len());
        assert(bytes.take(head.len() as int) =~= head);
        assert(bytes.skip(head.len() as int) =~= tail);
        assert forall|k: int| 0 <= k < rest.len() implies well_formed(#[trigger] rest[k]) by {
            assert(rest[k] == instructions[k + 1]);
        }
        theorem_program_round_trip(rest, address + head.len());
    }
}

/// The listing of any bytes covers them: no entry is empty or longer than
/// three bytes, each entry starts where the one before it ends, and the
/// bytes of all the entries together are the bytes that were listed. So
/// the entries are at most as many as the bytes, and their lengths add up
/// to the number of the bytes.
pub proof fn theorem_listing_covers(bytes: Seq<u8>, address: nat)
    ensures
        listed_bytes(decoded(bytes, address)) == bytes,
        decoded(bytes, address).len() <= bytes.len(),
        bytes.len() > 0 ==> decoded(bytes, address).len() > 0,
        forall|k: int|
            0 <= k < decoded(bytes, address).len() ==> 1 <= (#[trigger] decoded(
                bytes,
                address,
            )[k]).bytes.len() <= 3,
        forall|k: int|
            0 <= k < decoded(bytes, address).len() ==> (#[trigger] decoded(
                bytes,
                address,
            )[k]).address == address + listed_bytes(decoded(bytes, address).take(k)).len(),
    decreases bytes.len(),
{
    let d = decoded(bytes, address);
    if bytes.len() > 0 {
        let n = consumed(bytes);
        let first = first_listing(bytes, address);
        let rest = decoded(bytes.skip(n as int), address + n);
        theorem_listing_covers(bytes.skip(n as int), address + n);
        assert(d.drop_first() =~= rest);
        assert(bytes.take(n as int) + bytes.skip(n as int) =~= bytes);
        assert forall|k: int| 0 <= k < d.len() implies (#[trigger] d[k]).address == address
            + listed_bytes(d.take(k)).len() by {
            if k == 0 {
                assert(d.take(0).len() == 0);
            } else {
                assert(d[k] == rest[k - 1]);
                assert(d.take(k)[0] == first);
                assert(d.take(k).drop_first() =~= rest.take(k - 1));
            }
        }
    }
}

/// Operands whose labels were replaced hold no label, and take as many
/// bytes as the operands that they were made from.
proof fn lemma_lowered_operands(table: Map<Seq<char>, nat>, operands: Seq<OperandView>)
    ensures
        first_label(operands.map_values(|o: OperandView| lower_operand(table, o))) is None,
        trailing_bytes(operands.map_values(|o: OperandView| lower_operand(table, o))).len()
            == extra_bytes(operands),
        extra_bytes(operands.map_values(|o: OperandView| lower_operand(table, o)))
            == extra_bytes(operands),
    decreases operands.len(),
{
    let lowered = operands.map_values(|o: OperandView| lower_operand(table, o));
    if operands.len() > 0 {
        lemma_lowered_operands(table, operands.drop_last());
        assert(lowered.drop_last() =~= operands.drop_last().map_values(
            |o: OperandView| lower_operand(table, o),
        ));
    }
}

/// Operands without a label put as many bytes behind the opcode word as
/// the footprint counts.
proof fn lemma_trailing_length(operands: Seq<OperandView>)
    requires
        first_label(operands) is None,
    ensures
        trailing_bytes(operands).len() == extra_bytes(operands),
    decreases operands.len(),
{
    if operands.len() > 0 {
        lemma_trailing_length(operands.drop_last());
    }
}

/// The assembler emits for an instruction without labels exactly as many
/// bytes as the label pass counts for it.
pub proof fn theorem_footprint_is_encoded_length(i: InstructionView)
    requires
        first_label(i.operands) is None,
    ensures
        encode_instruction(i).len() == footprint(i),
{
    lemma_trailing_length(i.operands);
}

/// The assembler emits for a program without labels exactly as many bytes
/// as the label pass counts for it.
pub proof fn theorem_size_is_encoded_length(items: Seq<FuncBodyView>)
    requires
        first_fault(items) is None,
    ensures
        encode_program(items).len() == program_size(items),
    decreases items.len(),
{
    if items.len() > 0 {
        theorem_size_is_encoded_length(items.drop_last());
        match items.last() {
            FuncBodyView::Instruction(i) => {
                theorem_footprint_is_encoded_length(i);
            },
            _ => {},
        }
    }
}

/// A lowered program holds no label, so the assembler accepts it, and it
/// has the size of the program that it was made from: that is the number
/// of bytes that the assembler emits for it.
pub proof fn theorem_lowered_program(table: Map<Seq<char>, nat>, items: Seq<FuncBodyView>)
    ensures
        first_fault(lower_items(table, items)) is None,
        program_size(lower_items(table, items)) == program_size(items),
        encode_program(lower_items(table, items)).len() == program_size(items),
    decreases items.len(),
{
    if items.len() > 0 {
        theorem_lowered_program(table, items.drop_last());
        let before = lower_items(table, items.drop_last());
        match items.last() {
            FuncBodyView::Instruction(i) => {
                lemma_lowered_operands(table, i.operands);
                let item = FuncBodyView::Instruction(lower_instruction(table, i));
                assert(before.push(item).drop_last() =~= before);
            },
            FuncBodyView::Data(d) => {
                assert(before.push(FuncBodyView::Data(d)).drop_last() =~= before);
            },
            FuncBodyView::Label(_) => {},
        }
    }
    theorem_size_is_encoded_length(lower_items(table, items));
}

/// The address of a label is the number of bytes before its marker: the
/// size of the items before the marker, and the number of bytes that the
/// assembler emits for those items once they are lowered.
pub proof fn theorem_label_address(items: Seq<FuncBodyView>, j: int)
    requires
        first_duplicate(items) is None,
        0 <= j < items.len(),
        items[j] is Label,
    ensures
        label_table(items).contains_key(items[j]->Label_0),
        label_table(items)[items[j]->Label_0] == program_size(items.take(j)),
        label_table(items)[items[j]->Label_0] == encode_program(
            lower_items(label_table(items), items.take(j)),
        ).len(),
    decreases items.len(),
{
    let name = items[j]->Label_0;
    let init = items.drop_last();
    if j == items.len() - 1 {
        assert(items.take(j) =~= init);
    } else {
        theorem_label_address(init, j);
        assert(init.take(j) =~= items.take(j));
    }
    theorem_lowered_program(label_table(items), items.take(j));
}

/// Lowering is determined by the program: two runs of [`lower_labels`] on
/// programs of one model end alike, in the same error or in programs of
/// one model, which the assembler turns into the same bytes.
pub proof fn theorem_lowering_is_determined(
    first: Vec<FuncBody>,
    second: Vec<FuncBody>,
    r1: Result<Vec<FuncBody>, ResolveError>,
    r2: Result<Vec<FuncBody>, ResolveError>,
)
    requires
        first.deep_view() == second.deep_view(),
        call_ensures(lower_labels, (first,), r1),
        call_ensures(lower_labels, (second,), r2),
    ensures
        match (r1, r2) {
            (Ok(a), Ok(b)) => a.deep_view() == b.deep_view() && encode_program(a.deep_view())
                == encode_program(b.deep_view()),
            (Err(e), Err(f)) => e@ == f@,
            _ => false,
        },
{
}

/// A program without labels is its own lowering.
pub proof fn theorem_resolved_stays(items: Seq<FuncBodyView>)
    requires
        first_fault(items) is None,
    ensures
        resolve(items) == Ok::<Seq<FuncBodyView>, ResolveErrorView>(items),
{
    lemma_resolved_parts(items, Map::empty());
}

/// A program without labels has no label to define or to look up, and
/// lowering leaves it as it is, whatever the table.
proof fn lemma_resolved_parts(items: Seq<FuncBodyView>, table: Map<Seq<char>, nat>)
    requires
        first_fault(items) is None,
    ensures
        label_table(items) == Map::<Seq<char>, nat>::empty(),
        first_duplicate(items) is None,
        first_error(table, items) is None,
        lower_items(table, items) == items,
    decreases items.len(),
{
    if items.len() > 0 {
        lemma_resolved_parts(items.drop_last(), table);
        match items.last() {
            FuncBodyView::Instruction(i) => {
                lemma_resolved_operands(i.operands, table);
                assert(lower_instruction(table, i) == i);
            },
            _ => {},
        }
        assert(items.drop_last().push(items.last()) =~= items);
    }
}

/// Operands without a label have none to look up, and lowering leaves
/// them as they are.
proof fn lemma_resolved_operands(operands: Seq<OperandView>, table: Map<Seq<char>, nat>)
    requires
        first_label(operands) is None,
    ensures
        operands_error(table, operands) is None,
        operands.map_values(|o: OperandView| lower_operand(table, o)) == operands,
    decreases operands.len(),
{
    let lowered = operands.map_values(|o: OperandView| lower_operand(table, o));
    if operands.len() > 0 {
        lemma_resolved_operands(operands.drop_last(), table);
        assert(lowered.drop_last() =~= operands.drop_last().map_values(
            |o: OperandView| lower_operand(table, o),
        ));
        assert(lowered =~= lowered.drop_last().push(lowered.last()));
        assert(operands =~= operands.drop_last().push(operands.last()));
    }
    assert(lowered =~= operands);
}

/// Lowering is idempotent: the lowering of a program lowers to itself.
pub proof fn theorem_resolve_idempotent(items: Seq<FuncBodyView>)
    requires
        resolve(items) is Ok,
    ensures
        resolve(resolve(items)->Ok_0) == resolve(items),
        first_fault(resolve(items)->Ok_0) is None,
{
    theorem_lowered_program(label_table(items), items);
    theorem_resolved_stays(resolve(items)->Ok_0);
}

/// The assembler accepts exactly the programs that hold no label, neither
/// as a marker nor as an operand.
pub proof fn theorem_fault_free_is_resolved(items: Seq<FuncBodyView>)
    ensures
        first_fault(items) is None <==> is_resolved(items),
    decreases items.len(),
{
    if items.len() > 0 {
        let init = items.drop_last();
        theorem_fault_free_is_resolved(init);
        match items.last() {
            FuncBodyView::Instruction(i) => {
                lemma_label_free(i.operands);
            },
            _ => {},
        }
        if is_resolved(items) {
            assert forall|k: int| 0 <= k < init.len() implies match #[trigger] init[k] {
                FuncBodyView::Instruction(i) => forall|j: int|
                    0 <= j < i.operands.len() ==> !(#[trigger] i.operands[j] is Label),
                FuncBodyView::Label(_) => false,
                FuncBodyView::Data(_) => true,
            } by {
                assert(init[k] == items[k]);
            }
            let last = items[items.len() - 1];
        }
        if first_fault(items) is None {
            assert forall|k: int| 0 <= k < items.len() implies match #[trigger] items[k] {
                FuncBodyView::Instruction(i) => forall|j: int|
                    0 <= j < i.operands.len() ==> !(#[trigger] i.operands[j] is Label),
                FuncBodyView::Label(_) => false,
                FuncBodyView::Data(_) => true,
            } by {
                if k < init.len() {
                    assert(init[k] == items[k]);
                }
            }
        }
    }
}

/// Operands have no first label exactly where none of them is a label.
proof fn lemma_label_free(operands: Seq<OperandView>)
    ensures
        first_label(operands) is None <==> forall|j: int|
            0 <= j < operands.len() ==> !(#[trigger] operands[j] is Label),
    decreases operands.len(),
{
    if operands.len() > 0 {
        let init = operands.drop_last();
        lemma_label_free(init);
        if forall|j: int| 0 <= j < operands.len() ==> !(#[trigger] operands[j] is Label) {
            assert forall|j: int| 0 <= j < init.len() implies !(#[trigger] init[j] is Label) by {
                assert(init[j] == operands[j]);
            }
            assert(!(operands[operands.len() - 1] is Label));
        }
        if first_label(operands) is None {
            assert forall|j: int| 0 <= j < operands.len() implies !(
            #[trigger] operands[j] is Label) by {
                if j < init.len() {
                    assert(init[j] == operands[j]);
                }
            }
        }
    }
}

/// Reading undoes writing: the text of bytes loads as the bytes.
pub proof fn theorem_binary_text_loads(bytes: Seq<u8>)
    ensures
        loaded(binary_text(bytes)) == Ok::<Seq<u8>, LoadErrorView>(bytes),
    decreases bytes.len(),
{
    let lines = bytes.map_values(|b: u8| binary(b));
    let sep = seq!['\n'];
    if bytes.len() == 0 {
        assert(binary_text(bytes).len() == 0);
        assert(bytes =~= Seq::<u8>::empty());
    } else if bytes.len() == 1 {
        lemma_loaded_line(bytes[0], Seq::empty());
        assert(bytes =~= seq![bytes[0]]);
    } else {
        let rest = bytes.drop_first();
        lemma_join_front(lines, sep);
        assert(lines.drop_first() =~= rest.map_values(|b: u8| binary(b)));
        theorem_binary_text_loads(rest);
        lemma_loaded_line(bytes[0], binary_text(rest));
        assert(seq![bytes[0]] + rest =~= bytes);
    }
}

} // verus!
