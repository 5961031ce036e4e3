//! The one bit layout that the assembler, the label pass and the
//! disassembler share.
//!
//! An instruction starts with its opcode word: the opcode's numeric code in
//! the low five bits and a three-bit field, for a register or a condition, in
//! the high three. Immediates and addresses follow as one byte each. The
//! conditional branch always takes three bytes: its word, then the target
//! split into the bits above the low seven and the low seven bits.

use vstd::prelude::*;
use crate::ast::{InstructionView, Opcode, OperandView};

verus! {

/// The number of bytes that a conditional branch occupies.
pub const BRANCH_FOOTPRINT: usize = 3;

/// The number of addresses that an immediate can hold.
pub const ADDRESS_SPACE: usize = 256;

/// The operands that an opcode takes.
#[derive(Debug, Clone, Copy, PartialEq, Eq, Structural)]
pub enum Shape {
    /// No operand.
    Bare,
    /// A register in the field of the opcode word.
    Reg,
    /// An immediate byte after the opcode word.
    Imm,
    /// A register in the field and an immediate byte.
    RegImm,
    /// A port or bank selector as a byte after the opcode word.
    Addr,
    /// A condition in the field and a split target in two bytes.
    Branch,
}

/// The operands that each opcode takes.
pub open spec fn spec_shape(op: Opcode) -> Shape {
    match op {
        Opcode::Nop | Opcode::EMPTY | Opcode::Ret | Opcode::Hlt | Opcode::Ics => Shape::Bare,
        Opcode::Inc
        | Opcode::Dec
        | Opcode::Add
        | Opcode::Adr
        | Opcode::Neg
        | Opcode::Sub
        | Opcode::Cmp
        | Opcode::Bor
        | Opcode::And
        | Opcode::Xor
        | Opcode::Rst
        | Opcode::Rld
        | Opcode::Mst
        | Opcode::Mld
        | Opcode::Psh
        | Opcode::Pop => Shape::Reg,
        Opcode::Bsl | Opcode::Bsr | Opcode::Cal | Opcode::Jid => Shape::Imm,
        Opcode::Lia | Opcode::Lir => Shape::RegImm,
        Opcode::Pst | Opcode::Pld => Shape::Addr,
        Opcode::Brc => Shape::Branch,
    }
}

/// The number of bytes that an instruction of the given shape occupies.
pub open spec fn spec_shape_footprint(shape: Shape) -> nat {
    match shape {
        Shape::Bare | Shape::Reg => 1,
        Shape::Imm | Shape::RegImm | Shape::Addr => 2,
        Shape::Branch => BRANCH_FOOTPRINT as nat,
    }
}

/// The opcode word for a numeric code and a field; of the field only the low
/// three bits count.
pub open spec fn spec_opcode_word(code: u8, field: u8) -> u8 {
    code | ((field & 7) << 5)
}

/// The numeric code in an opcode word: its low five bits.
pub open spec fn spec_word_code(word: u8) -> u8 {
    word & 0x1f
}

/// The field in an opcode word: its high three bits.
pub open spec fn spec_word_field(word: u8) -> u8 {
    word >> 5
}

/// The first byte of a split branch target: the bits above the low seven.
pub open spec fn spec_target_high(target: u8) -> u8 {
    target >> 7
}

/// The second byte of a split branch target: the low seven bits.
pub open spec fn spec_target_low(target: u8) -> u8 {
    target & 0x7f
}

/// The branch target that two bytes stand for: the first taken as the bits
/// above the low seven, the second as the bits below them.
pub open spec fn spec_join_target(high: u8, low: u8) -> u16 {
    ((high as u16) << 7) | (low as u16)
}

/// True for an operand that occupies a byte of its own after the opcode
/// word: an immediate, an address, or a label, which becomes an immediate.
pub open spec fn takes_byte(o: OperandView) -> bool {
    o is Immediate || o is Address || o is Label
}

/// The number of operands that occupy a byte of their own.
pub open spec fn extra_bytes(operands: Seq<OperandView>) -> nat
    decreases operands.len(),
{
    if operands.len() == 0 {
        0
    } else {
        extra_bytes(operands.drop_last()) + if takes_byte(operands.last()) {
            1nat
        } else {
            0nat
        }
    }
}

/// The number of bytes that an instruction occupies once encoded: three for
/// a conditional branch whatever its operands, else one for the opcode word
/// and one for each operand that takes a byte.
pub open spec fn footprint(i: InstructionView) -> nat {
    if i.opcode == Opcode::Brc {
        BRANCH_FOOTPRINT as nat
    } else {
        1 + extra_bytes(i.operands)
    }
}

/// True for an instruction whose operands are those that its opcode takes,
/// with a register index that fits the field.
pub open spec fn well_formed(i: InstructionView) -> bool {
    match spec_shape(i.opcode) {
        Shape::Bare => i.operands.len() == 0,
        Shape::Reg => i.operands.len() == 1 && i.operands[0] is Register
            && i.operands[0]->Register_0 < 8,
        Shape::Imm => i.operands.len() == 1 && i.operands[0] is Immediate,
        Shape::RegImm => i.operands.len() == 2 && i.operands[0] is Register
            && i.operands[0]->Register_0 < 8 && i.operands[1] is Immediate,
        Shape::Addr => i.operands.len() == 1 && i.operands[0] is Address,
        Shape::Branch => i.operands.len() == 2 && i.operands[0] is Condition
            && i.operands[1] is Immediate,
    }
}

/// Returns the operands that the opcode takes.
pub fn shape(op: Opcode) -> (s: Shape)
    ensures
        s == spec_shape(op),
{
    match op {
        Opcode::Nop | Opcode::EMPTY | Opcode::Ret | Opcode::Hlt | Opcode::Ics => Shape::Bare,
        Opcode::Inc
        | Opcode::Dec
        | Opcode::Add
        | Opcode::Adr
        | Opcode::Neg
        | Opcode::Sub
        | Opcode::Cmp
        | Opcode::Bor
        | Opcode::And
        | Opcode::Xor
        | Opcode::Rst
        | Opcode::Rld
        | Opcode::Mst
        | Opcode::Mld
        | Opcode::Psh
        | Opcode::Pop => Shape::Reg,
        Opcode::Bsl | Opcode::Bsr | Opcode::Cal | Opcode::Jid => Shape::Imm,
        Opcode::Lia | Opcode::Lir => Shape::RegImm,
        Opcode::Pst | Opcode::Pld => Shape::Addr,
        Opcode::Brc => Shape::Branch,
    }
}

/// Returns the number of bytes that an instruction of the given shape
/// occupies.
pub fn shape_footprint(shape: Shape) -> (n: usize)
    ensures
        n == spec_shape_footprint(shape),
        1 <= n <= 3,
{
    match shape {
        Shape::Bare | Shape::Reg => 1,
        Shape::Imm | Shape::RegImm | Shape::Addr => 2,
        Shape::Branch => BRANCH_FOOTPRINT,
    }
}

/// Returns the opcode word for a numeric code and a field.
pub fn opcode_word(code: u8, field: u8) -> (w: u8)
    ensures
        w == spec_opcode_word(code, field),
{
    code | ((field & 7) << 5)
}

/// Returns the numeric code in an opcode word.
pub fn word_code(word: u8) -> (c: u8)
    ensures
        c == spec_word_code(word),
        c < 32,
{
    assert(word & 0x1f < 32) by (bit_vector);
    word & 0x1f
}

/// Returns the field in an opcode word.
pub fn word_field(word: u8) -> (f: u8)
    ensures
        f == spec_word_field(word),
        f < 8,
{
    assert(word >> 5 < 8) by (bit_vector);
    word >> 5
}

/// Returns the first byte of a split branch target.
pub fn target_high(target: u8) -> (b: u8)
    ensures
        b == spec_target_high(target),
{
    target >> 7
}

/// Returns the second byte of a split branch target.
pub fn target_low(target: u8) -> (b: u8)
    ensures
        b == spec_target_low(target),
{
    target & 0x7f
}

/// Returns the branch target that two bytes stand for.
pub fn join_target(high: u8, low: u8) -> (t: u16)
    ensures
        t == spec_join_target(high, low),
{
    ((high as u16) << 7) | (low as u16)
}

/// An opcode word gives back the code and the field that it was made of.
pub proof fn lemma_word_inverse(code: u8, field: u8)
    requires
        code < 32,
    ensures
        spec_word_code(spec_opcode_word(code, field)) == code,
        spec_word_field(spec_opcode_word(code, field)) == field & 7,
        field < 8 ==> spec_word_field(spec_opcode_word(code, field)) == field,
{
    assert((code | ((field & 7) << 5)) & 0x1f == code) by (bit_vector)
        requires
            code < 32,
    ;
    assert((code | ((field & 7) << 5)) >> 5 == field & 7) by (bit_vector)
        requires
            code < 32,
    ;
    assert(field < 8 ==> field & 7 == field) by (bit_vector);
}

/// A word is made again from the code and the field that are read from it.
pub proof fn lemma_word_rebuild(word: u8)
    ensures
        spec_opcode_word(spec_word_code(word), spec_word_field(word)) == word,
{
    assert((word & 0x1f) | (((word >> 5) & 7) << 5) == word) by (bit_vector);
}

/// A split branch target is joined again to the target.
pub proof fn lemma_target_inverse(target: u8)
    ensures
        spec_join_target(spec_target_high(target), spec_target_low(target)) == target,
{
    assert((((target >> 7) as u16) << 7) | ((target & 0x7f) as u16) == target as u16)
        by (bit_vector);
}

/// A well-formed instruction occupies as many bytes as its opcode's shape
/// says.
pub proof fn lemma_well_formed_footprint(i: InstructionView)
    requires
        well_formed(i),
    ensures
        footprint(i) == spec_shape_footprint(spec_shape(i.opcode)),
{
    reveal_with_fuel(extra_bytes, 3);
    let ops = i.operands;
    if ops.len() == 2 {
        assert(ops.drop_last().last() == ops[0]);
    }
}

} // verus!
