use carbon1dot1_assembler::assembler::{assemble, AssembleError};
use carbon1dot1_assembler::ast::{Condition, FuncBody, Instruction, Opcode, Operand};

fn instr(opcode: Opcode, operands: Vec<Operand>) -> FuncBody {
    FuncBody::Instruction(Instruction { opcode, operands })
}

#[test]
fn bare_opcode_is_one_byte_with_empty_field() {
    let bytes = assemble(vec![instr(Opcode::Hlt, vec![])]).unwrap();
    assert_eq!(bytes, vec![28u8]);
    assert_eq!(bytes[0] & 0x1f, Opcode::Hlt.code());
    assert_eq!(bytes[0] >> 5, 0);
}

#[test]
fn register_goes_into_the_high_bits() {
    let bytes = assemble(vec![instr(Opcode::Inc, vec![Operand::Register(5)])]).unwrap();
    assert_eq!(bytes, vec![0b101_00001u8]);
    assert_eq!(bytes[0] >> 5, 5);
    assert_eq!(bytes[0] & 0x1f, 1);
}

#[test]
fn register_index_is_cut_to_three_bits() {
    let bytes = assemble(vec![instr(Opcode::Inc, vec![Operand::Register(13)])]).unwrap();
    assert_eq!(bytes, vec![0b101_00001u8]);
    let bytes = assemble(vec![instr(Opcode::Dec, vec![Operand::Register(255)])]).unwrap();
    assert_eq!(bytes, vec![0b111_00010u8]);
    let bytes = assemble(vec![instr(Opcode::Dec, vec![Operand::Register(8)])]).unwrap();
    assert_eq!(bytes, vec![0b000_00010u8]);
}

#[test]
fn immediate_follows_the_word() {
    let bytes = assemble(vec![instr(Opcode::Cal, vec![Operand::Immediate(0x10)])]).unwrap();
    assert_eq!(bytes, vec![20u8, 0x10]);
    let bytes = assemble(vec![instr(Opcode::Bsl, vec![Operand::Immediate(3)])]).unwrap();
    assert_eq!(bytes, vec![12u8, 3]);
}

#[test]
fn address_follows_the_word() {
    let bytes = assemble(vec![instr(Opcode::Pst, vec![Operand::Address(3)])]).unwrap();
    assert_eq!(bytes, vec![26u8, 3]);
    let bytes = assemble(vec![instr(Opcode::Pld, vec![Operand::Address(200)])]).unwrap();
    assert_eq!(bytes, vec![27u8, 200]);
}

#[test]
fn register_and_immediate() {
    let bytes = assemble(vec![instr(
        Opcode::Lir,
        vec![Operand::Register(3), Operand::Immediate(0x2a)],
    )])
    .unwrap();
    assert_eq!(bytes, vec![0b011_01111u8, 0x2a]);
}

#[test]
fn field_holds_every_register_and_condition() {
    let bytes = assemble(vec![instr(
        Opcode::Add,
        vec![Operand::Register(1), Operand::Immediate(9), Operand::Register(4)],
    )])
    .unwrap();
    assert_eq!(bytes, vec![0b101_00011u8, 9]);
    let bytes = assemble(vec![instr(
        Opcode::Add,
        vec![Operand::Immediate(9), Operand::Condition(Condition::Eq), Operand::Immediate(7)],
    )])
    .unwrap();
    assert_eq!(bytes, vec![0b010_00011u8, 9, 7]);
}

#[test]
fn branch_is_three_bytes_with_split_target() {
    let bytes = assemble(vec![instr(
        Opcode::Brc,
        vec![Operand::Condition(Condition::Eq), Operand::Immediate(5)],
    )])
    .unwrap();
    assert_eq!(bytes, vec![0b010_10110u8, 0, 5]);
    let bytes = assemble(vec![instr(
        Opcode::Brc,
        vec![Operand::Condition(Condition::Lteq), Operand::Immediate(200)],
    )])
    .unwrap();
    assert_eq!(bytes, vec![0b111_10110u8, 1, 72]);
    let bytes = assemble(vec![instr(
        Opcode::Brc,
        vec![Operand::Condition(Condition::Jmp), Operand::Immediate(255)],
    )])
    .unwrap();
    assert_eq!(bytes, vec![22u8, 1, 127]);
}

#[test]
fn branch_is_three_bytes_whatever_its_operands() {
    let bytes = assemble(vec![instr(Opcode::Brc, vec![])]).unwrap();
    assert_eq!(bytes, vec![22u8, 0, 0]);
    let bytes = assemble(vec![instr(Opcode::Brc, vec![Operand::Condition(Condition::Gt)])]).unwrap();
    assert_eq!(bytes, vec![0b100_10110u8, 0, 0]);
    let bytes = assemble(vec![instr(
        Opcode::Brc,
        vec![Operand::Address(130), Operand::Immediate(7), Operand::Register(1)],
    )])
    .unwrap();
    assert_eq!(bytes, vec![0b001_10110u8, 1, 2]);
}

#[test]
fn data_is_copied() {
    let bytes = assemble(vec![FuncBody::Data(vec![1, 2, 255, 0])]).unwrap();
    assert_eq!(bytes, vec![1u8, 2, 255, 0]);
    let bytes = assemble(vec![FuncBody::Data(vec![])]).unwrap();
    assert_eq!(bytes, Vec::<u8>::new());
}

#[test]
fn items_keep_their_order() {
    let bytes = assemble(vec![
        instr(Opcode::Nop, vec![]),
        FuncBody::Data(vec![0xaa, 0xbb]),
        instr(Opcode::Lia, vec![Operand::Register(7), Operand::Immediate(1)]),
        instr(Opcode::Ret, vec![]),
    ])
    .unwrap();
    assert_eq!(bytes, vec![0u8, 0xaa, 0xbb, 0b111_01110, 1, 21]);
}

#[test]
fn empty_program_has_no_bytes() {
    assert_eq!(assemble(vec![]), Ok(vec![]));
}

#[test]
fn every_opcode_has_its_code_in_the_low_bits() {
    let all = [
        Opcode::Nop, Opcode::Inc, Opcode::Dec, Opcode::Add, Opcode::Adr, Opcode::Neg,
        Opcode::Sub, Opcode::EMPTY, Opcode::Cmp, Opcode::Bor, Opcode::And, Opcode::Xor,
        Opcode::Bsl, Opcode::Bsr, Opcode::Lia, Opcode::Lir, Opcode::Rst, Opcode::Rld,
        Opcode::Mst, Opcode::Mld, Opcode::Cal, Opcode::Ret, Opcode::Brc, Opcode::Jid,
        Opcode::Psh, Opcode::Pop, Opcode::Pst, Opcode::Pld, Opcode::Hlt, Opcode::Ics,
    ];
    for (n, op) in all.iter().enumerate() {
        assert_eq!(op.code() as usize, n);
        assert_eq!(Opcode::from_code(n as u8), Some(*op));
        let bytes = assemble(vec![instr(*op, vec![Operand::Register(6)])]).unwrap();
        assert_eq!(bytes[0] & 0x1f, n as u8);
        assert_eq!(bytes[0] >> 5, 6);
    }
    assert_eq!(Opcode::from_code(30), None);
    assert_eq!(Opcode::from_code(31), None);
    assert_eq!(Opcode::from_code(255), None);
}

#[test]
fn label_operand_is_refused() {
    let r = assemble(vec![
        instr(Opcode::Nop, vec![]),
        instr(Opcode::Cal, vec![Operand::Label("main".to_string())]),
    ]);
    assert_eq!(r, Err(AssembleError::UnresolvedLabel("main".to_string())));
}

#[test]
fn label_marker_is_refused() {
    let r = assemble(vec![instr(Opcode::Nop, vec![]), FuncBody::Label("here".to_string())]);
    assert_eq!(r, Err(AssembleError::LabelMarker("here".to_string())));
}

#[test]
fn first_label_in_program_order_is_reported() {
    let r = assemble(vec![
        instr(
            Opcode::Lir,
            vec![
                Operand::Register(1),
                Operand::Label("b".to_string()),
                Operand::Label("a".to_string()),
            ],
        ),
        FuncBody::Label("c".to_string()),
    ]);
    assert_eq!(r, Err(AssembleError::UnresolvedLabel("b".to_string())));
    let r = assemble(vec![
        FuncBody::Label("c".to_string()),
        instr(Opcode::Cal, vec![Operand::Label("a".to_string())]),
    ]);
    assert_eq!(r, Err(AssembleError::LabelMarker("c".to_string())));
}

#[test]
fn condition_codes() {
    let all = [
        Condition::Jmp, Condition::Even, Condition::Eq, Condition::Neq, Condition::Gt,
        Condition::Lt, Condition::Gteq, Condition::Lteq,
    ];
    for (n, c) in all.iter().enumerate() {
        assert_eq!(c.code() as usize, n);
        assert_eq!(Condition::from_code(n as u8), *c);
        let bytes = assemble(vec![instr(
            Opcode::Brc,
            vec![Operand::Condition(*c), Operand::Immediate(0)],
        )])
        .unwrap();
        assert_eq!(bytes, vec![22 | ((n as u8) << 5), 0, 0]);
    }
}
