use carbon1dot1_assembler::assembler::assemble;
use carbon1dot1_assembler::ast::{Condition, FuncBody, Instruction, Opcode, Operand};
use carbon1dot1_assembler::lower_labels::{lower_labels, ResolveError};

fn instr(opcode: Opcode, operands: Vec<Operand>) -> FuncBody {
    FuncBody::Instruction(Instruction { opcode, operands })
}

fn label(name: &str) -> FuncBody {
    FuncBody::Label(name.to_string())
}

fn jump(name: &str) -> FuncBody {
    instr(
        Opcode::Brc,
        vec![Operand::Condition(Condition::Jmp), Operand::Label(name.to_string())],
    )
}

fn one_byte_instrs(n: usize) -> Vec<FuncBody> {
    let mut v = Vec::new();
    for k in 0..n {
        v.push(instr(Opcode::Inc, vec![Operand::Register((k % 8) as u8)]));
    }
    v
}

#[test]
fn label_behind_five_one_byte_instructions_is_at_five() {
    let mut program = one_byte_instrs(5);
    program.push(label("L"));
    program.push(jump("L"));
    let lowered = lower_labels(program).unwrap();
    let mut expected = one_byte_instrs(5);
    expected.push(instr(
        Opcode::Brc,
        vec![Operand::Condition(Condition::Jmp), Operand::Immediate(5)],
    ));
    assert_eq!(lowered, expected);
    let bytes = assemble(lowered).unwrap();
    assert_eq!(bytes.len(), 8);
    assert_eq!(&bytes[5..], &[22u8, 0, 5]);
}

#[test]
fn label_at_the_start_is_at_zero() {
    let mut program = vec![label("L")];
    program.extend(one_byte_instrs(5));
    program.push(jump("L"));
    let lowered = lower_labels(program).unwrap();
    assert_eq!(lowered.len(), 6);
    assert_eq!(
        lowered[5],
        instr(Opcode::Brc, vec![Operand::Condition(Condition::Jmp), Operand::Immediate(0)])
    );
}

#[test]
fn label_may_be_used_before_its_marker() {
    let program = vec![
        instr(Opcode::Cal, vec![Operand::Label("f".to_string())]),
        instr(Opcode::Hlt, vec![]),
        label("f"),
        instr(Opcode::Ret, vec![]),
    ];
    let lowered = lower_labels(program).unwrap();
    assert_eq!(
        lowered,
        vec![
            instr(Opcode::Cal, vec![Operand::Immediate(3)]),
            instr(Opcode::Hlt, vec![]),
            instr(Opcode::Ret, vec![]),
        ]
    );
}

#[test]
fn sizes_of_items() {
    let program = vec![
        label("a"),
        instr(Opcode::Nop, vec![]),
        label("b"),
        instr(Opcode::Inc, vec![Operand::Register(1)]),
        label("c"),
        instr(Opcode::Lir, vec![Operand::Register(1), Operand::Immediate(9)]),
        label("d"),
        instr(Opcode::Pst, vec![Operand::Address(2)]),
        label("e"),
        jump("a"),
        label("f"),
        FuncBody::Data(vec![1, 2, 3, 4, 5]),
        label("g"),
        instr(Opcode::Cal, vec![Operand::Label("a".to_string())]),
        label("h"),
        instr(Opcode::Brc, vec![]),
        label("i"),
        instr(
            Opcode::Jid,
            vec![
                Operand::Label("a".to_string()),
                Operand::Label("b".to_string()),
                Operand::Label("c".to_string()),
                Operand::Label("d".to_string()),
                Operand::Label("e".to_string()),
                Operand::Label("f".to_string()),
                Operand::Label("g".to_string()),
                Operand::Label("h".to_string()),
                Operand::Label("i".to_string()),
            ],
        ),
    ];
    let lowered = lower_labels(program).unwrap();
    assert_eq!(
        lowered[8],
        instr(
            Opcode::Jid,
            vec![
                Operand::Immediate(0),
                Operand::Immediate(1),
                Operand::Immediate(2),
                Operand::Immediate(4),
                Operand::Immediate(6),
                Operand::Immediate(9),
                Operand::Immediate(14),
                Operand::Immediate(16),
                Operand::Immediate(19),
            ],
        )
    );
}

#[test]
fn markers_are_dropped_and_data_stays() {
    let program = vec![
        label("x"),
        FuncBody::Data(vec![9, 8, 7]),
        label("y"),
        instr(Opcode::Hlt, vec![]),
    ];
    let lowered = lower_labels(program).unwrap();
    assert_eq!(lowered, vec![FuncBody::Data(vec![9, 8, 7]), instr(Opcode::Hlt, vec![])]);
}

#[test]
fn undefined_label_fails() {
    let program = vec![instr(Opcode::Nop, vec![]), jump("missing")];
    assert_eq!(
        lower_labels(program),
        Err(ResolveError::UndefinedLabel("missing".to_string()))
    );
}

#[test]
fn first_undefined_label_is_reported() {
    let program = vec![
        label("known"),
        instr(
            Opcode::Cal,
            vec![
                Operand::Label("known".to_string()),
                Operand::Label("second".to_string()),
                Operand::Label("third".to_string()),
            ],
        ),
        jump("fourth"),
    ];
    assert_eq!(
        lower_labels(program),
        Err(ResolveError::UndefinedLabel("second".to_string()))
    );
}

#[test]
fn duplicate_label_fails() {
    let program = vec![label("a"), instr(Opcode::Nop, vec![]), label("b"), label("a")];
    assert_eq!(lower_labels(program), Err(ResolveError::DuplicateLabel("a".to_string())));
}

#[test]
fn duplicate_comes_before_undefined() {
    let program = vec![jump("missing"), label("a"), label("a")];
    assert_eq!(lower_labels(program), Err(ResolveError::DuplicateLabel("a".to_string())));
}

#[test]
fn last_address_is_255() {
    let program = vec![
        jump("end"),
        FuncBody::Data(vec![0; 252]),
        label("end"),
        instr(Opcode::Hlt, vec![]),
    ];
    let lowered = lower_labels(program).unwrap();
    assert_eq!(
        lowered[0],
        instr(Opcode::Brc, vec![Operand::Condition(Condition::Jmp), Operand::Immediate(255)])
    );
    let bytes = assemble(lowered).unwrap();
    assert_eq!(bytes.len(), 256);
    assert_eq!(&bytes[..3], &[22u8, 1, 127]);
}

#[test]
fn label_beyond_the_address_space_fails_where_it_is_used() {
    let program = vec![jump("end"), FuncBody::Data(vec![0; 253]), label("end")];
    assert_eq!(
        lower_labels(program),
        Err(ResolveError::AddressOutOfRange("end".to_string()))
    );
    let program = vec![
        FuncBody::Data(vec![0; 1000]),
        label("far"),
        instr(Opcode::Cal, vec![Operand::Label("far".to_string())]),
    ];
    assert_eq!(
        lower_labels(program),
        Err(ResolveError::AddressOutOfRange("far".to_string()))
    );
}

#[test]
fn unused_label_beyond_the_address_space_is_no_error() {
    let program = vec![FuncBody::Data(vec![7; 300]), label("far"), instr(Opcode::Hlt, vec![])];
    let lowered = lower_labels(program).unwrap();
    assert_eq!(lowered, vec![FuncBody::Data(vec![7; 300]), instr(Opcode::Hlt, vec![])]);
}

#[test]
fn lowering_twice_gives_the_same() {
    let program = vec![
        label("start"),
        instr(Opcode::Lir, vec![Operand::Register(2), Operand::Label("table".to_string())]),
        jump("start"),
        label("table"),
        FuncBody::Data(vec![1, 2, 3]),
    ];
    let first = lower_labels(program.clone()).unwrap();
    let second = lower_labels(program).unwrap();
    assert_eq!(first, second);
    assert_eq!(assemble(first.clone()), assemble(second));
    let again = lower_labels(first.clone()).unwrap();
    assert_eq!(again, first);
}

#[test]
fn lowered_program_without_labels_is_unchanged() {
    let program = vec![
        instr(Opcode::Lir, vec![Operand::Register(2), Operand::Immediate(4)]),
        FuncBody::Data(vec![]),
        instr(Opcode::Brc, vec![Operand::Condition(Condition::Neq), Operand::Immediate(0)]),
    ];
    assert_eq!(lower_labels(program.clone()), Ok(program));
    assert_eq!(lower_labels(vec![]), Ok(vec![]));
}

#[test]
fn label_address_is_the_length_of_what_is_assembled_before_it() {
    let program = vec![
        instr(Opcode::Lir, vec![Operand::Register(2), Operand::Label("b".to_string())]),
        label("a"),
        jump("c"),
        FuncBody::Data(vec![1, 2, 3]),
        label("b"),
        instr(Opcode::Pld, vec![Operand::Address(1)]),
        instr(Opcode::Psh, vec![Operand::Register(1)]),
        label("c"),
        instr(Opcode::Cal, vec![Operand::Label("a".to_string())]),
    ];
    let lowered = lower_labels(program.clone()).unwrap();
    let addresses = [("a", 1usize, 2u8), ("b", 4, 8), ("c", 7, 11)];
    for (name, marker, address) in addresses {
        assert_eq!(program[marker], label(name));
        let lowered_before = lower_labels_of_prefix(&program, marker);
        assert_eq!(assemble(lowered_before).unwrap().len(), address as usize);
    }
    assert_eq!(lowered[0], instr(Opcode::Lir, vec![Operand::Register(2), Operand::Immediate(8)]));
    assert_eq!(
        lowered[1],
        instr(Opcode::Brc, vec![Operand::Condition(Condition::Jmp), Operand::Immediate(11)])
    );
    assert_eq!(lowered[5], instr(Opcode::Cal, vec![Operand::Immediate(2)]));
    assert_eq!(assemble(lowered).unwrap().len(), 13);
}

fn lower_labels_of_prefix(program: &[FuncBody], marker: usize) -> Vec<FuncBody> {
    let lowered = lower_labels(program.to_vec()).unwrap();
    let kept = program[..marker].iter().filter(|b| !matches!(b, FuncBody::Label(_))).count();
    lowered[..kept].to_vec()
}
