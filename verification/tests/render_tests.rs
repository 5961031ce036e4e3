use carbon1dot1_assembler::ast::{Condition, FuncBody, Instruction, Opcode, Operand};
use carbon1dot1_assembler::render::bytes_to_text;
use carbon1dot1_assembler::text::{
    push_binary, push_decimal, push_hex, push_padded_hex, push_prefixed_hex,
};

#[test]
fn opcode_text_is_its_name_in_lower_case() {
    assert_eq!(Opcode::Nop.to_text(), "nop");
    assert_eq!(Opcode::EMPTY.to_text(), "empty");
    assert_eq!(Opcode::Brc.to_text(), "brc");
    assert_eq!(Opcode::Ics.to_text(), "ics");
    let all = [
        Opcode::Nop, Opcode::Inc, Opcode::Dec, Opcode::Add, Opcode::Adr, Opcode::Neg,
        Opcode::Sub, Opcode::EMPTY, Opcode::Cmp, Opcode::Bor, Opcode::And, Opcode::Xor,
        Opcode::Bsl, Opcode::Bsr, Opcode::Lia, Opcode::Lir, Opcode::Rst, Opcode::Rld,
        Opcode::Mst, Opcode::Mld, Opcode::Cal, Opcode::Ret, Opcode::Brc, Opcode::Jid,
        Opcode::Psh, Opcode::Pop, Opcode::Pst, Opcode::Pld, Opcode::Hlt, Opcode::Ics,
    ];
    for op in all {
        assert_eq!(op.to_text(), format!("{:?}", op).to_lowercase());
        assert_eq!(op.mnemonic(), op.to_text());
    }
}

#[test]
fn condition_text_is_its_name_in_lower_case() {
    let all = [
        Condition::Jmp, Condition::Even, Condition::Eq, Condition::Neq, Condition::Gt,
        Condition::Lt, Condition::Gteq, Condition::Lteq,
    ];
    for c in all {
        assert_eq!(c.to_text(), format!("{:?}", c).to_lowercase());
    }
    assert_eq!(Condition::Gteq.to_text(), "gteq");
}

#[test]
fn operand_texts() {
    assert_eq!(Operand::Register(5).to_text(), "r5");
    assert_eq!(Operand::Register(0).to_text(), "r0");
    assert_eq!(Operand::Register(255).to_text(), "r255");
    assert_eq!(Operand::Address(3).to_text(), "$3");
    assert_eq!(Operand::Address(120).to_text(), "$120");
    assert_eq!(Operand::Immediate(0).to_text(), "0x0");
    assert_eq!(Operand::Immediate(10).to_text(), "0xa");
    assert_eq!(Operand::Immediate(255).to_text(), "0xff");
    assert_eq!(Operand::Immediate(0x2a).to_text(), "0x2a");
    assert_eq!(Operand::Condition(Condition::Neq).to_text(), "neq");
    assert_eq!(Operand::Label("loop_start".to_string()).to_text(), "loop_start");
    assert_eq!(Operand::Label(String::new()).to_text(), "");
    for v in 0..=255u8 {
        assert_eq!(Operand::Immediate(v).to_text(), format!("{:#x}", v));
        assert_eq!(Operand::Register(v).to_text(), format!("r{}", v));
        assert_eq!(Operand::Address(v).to_text(), format!("${}", v));
    }
}

#[test]
fn instruction_text() {
    let i = Instruction {
        opcode: Opcode::Lir,
        operands: vec![Operand::Register(3), Operand::Immediate(0x2a)],
    };
    assert_eq!(i.to_text(), "lir r3 0x2a");
    let i = Instruction {
        opcode: Opcode::Brc,
        operands: vec![Operand::Condition(Condition::Lt), Operand::Label("again".to_string())],
    };
    assert_eq!(i.to_text(), "brc lt again");
    let i = Instruction { opcode: Opcode::Hlt, operands: vec![] };
    assert_eq!(i.to_text(), "hlt ");
    let i = Instruction {
        opcode: Opcode::Add,
        operands: vec![Operand::Register(1), Operand::Address(2), Operand::Immediate(3)],
    };
    assert_eq!(i.to_text(), "add r1 $2 0x3");
}

#[test]
fn item_text() {
    assert_eq!(FuncBody::Label("main".to_string()).to_text(), "main");
    assert_eq!(FuncBody::Data(vec![1, 2, 30, 255]).to_text(), "[1, 2, 30, 255]");
    assert_eq!(FuncBody::Data(vec![]).to_text(), "[]");
    assert_eq!(FuncBody::Data(vec![0]).to_text(), "[0]");
    assert_eq!(
        FuncBody::Instruction(Instruction {
            opcode: Opcode::Inc,
            operands: vec![Operand::Register(2)],
        })
        .to_text(),
        "inc r2"
    );
    assert_eq!(bytes_to_text(&vec![7, 8]), format!("{:?}", vec![7u8, 8]));
}

#[test]
fn numbers_as_text() {
    for n in [0usize, 1, 9, 10, 15, 16, 99, 100, 255, 256, 4095, 4096, 65535, 65536, 1234567] {
        let mut s = String::from("<");
        push_decimal(&mut s, n);
        assert_eq!(s, format!("<{}", n));
        let mut s = String::from("<");
        push_hex(&mut s, n, false);
        assert_eq!(s, format!("<{:x}", n));
        let mut s = String::from("<");
        push_hex(&mut s, n, true);
        assert_eq!(s, format!("<{:X}", n));
        let mut s = String::from("<");
        push_prefixed_hex(&mut s, n);
        assert_eq!(s, format!("<{:#x}", n));
        let mut s = String::from("<");
        push_padded_hex(&mut s, n);
        assert_eq!(s, format!("<{:04X}", n));
    }
    let mut s = String::new();
    push_decimal(&mut s, usize::MAX);
    assert_eq!(s, format!("{}", usize::MAX));
    for b in 0..=255u8 {
        let mut s = String::from(">");
        push_binary(&mut s, b);
        assert_eq!(s, format!(">{:08b}", b));
    }
    let mut s = String::new();
    push_padded_hex(&mut s, 0x1a);
    assert_eq!(s, "001A");
    let mut s = String::new();
    push_binary(&mut s, 0b1010_0001);
    assert_eq!(s, "10100001");
}
