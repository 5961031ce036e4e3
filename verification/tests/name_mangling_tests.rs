use carbon1dot1_assembler::assembler::assemble;
use carbon1dot1_assembler::ast::{Condition, FuncBody, Instruction, Opcode, Operand, TopLvl, TopLvlEnum};
use carbon1dot1_assembler::lower_labels::lower_labels;
use carbon1dot1_assembler::name_mangling::{make_inner_label, mangle};

fn instr(opcode: Opcode, operands: Vec<Operand>) -> FuncBody {
    FuncBody::Instruction(Instruction { opcode, operands })
}

#[test]
fn inner_label_name() {
    assert_eq!(
        make_inner_label(&"draw".to_string(), &"loop".to_string()),
        ".__INNER_FUNC_LABELdraw_loop"
    );
    assert_eq!(make_inner_label(&String::new(), &String::new()), ".__INNER_FUNC_LABEL_");
}

#[test]
fn empty_file_is_one_halt() {
    let flat = mangle(TopLvl { functions: vec![], instrs: vec![] });
    assert_eq!(flat, vec![instr(Opcode::Hlt, vec![])]);
}

#[test]
fn functions_follow_the_halt() {
    let module = TopLvl {
        functions: vec![
            (
                "draw".to_string(),
                vec![
                    FuncBody::Label("loop".to_string()),
                    instr(Opcode::Inc, vec![Operand::Register(1)]),
                    FuncBody::Data(vec![1, 2, 3]),
                    instr(
                        Opcode::Brc,
                        vec![Operand::Condition(Condition::Neq), Operand::Label("loop".to_string())],
                    ),
                    instr(Opcode::Ret, vec![]),
                ],
            ),
            ("idle".to_string(), vec![]),
            (
                "tick".to_string(),
                vec![instr(
                    Opcode::Lir,
                    vec![Operand::Register(2), Operand::Label("draw".to_string())],
                )],
            ),
        ],
        instrs: vec![
            FuncBody::Label("start".to_string()),
            instr(Opcode::Cal, vec![Operand::Label("draw".to_string())]),
            FuncBody::Data(vec![9]),
        ],
    };
    let flat = mangle(module);
    assert_eq!(
        flat,
        vec![
            FuncBody::Label("start".to_string()),
            instr(Opcode::Cal, vec![Operand::Label("draw".to_string())]),
            FuncBody::Data(vec![9]),
            instr(Opcode::Hlt, vec![]),
            FuncBody::Label("draw".to_string()),
            FuncBody::Label(".__INNER_FUNC_LABELdraw_loop".to_string()),
            instr(Opcode::Inc, vec![Operand::Register(1)]),
            instr(
                Opcode::Brc,
                vec![
                    Operand::Condition(Condition::Neq),
                    Operand::Label(".__INNER_FUNC_LABELdraw_loop".to_string()),
                ],
            ),
            instr(Opcode::Ret, vec![]),
            FuncBody::Label("idle".to_string()),
            FuncBody::Label("tick".to_string()),
            instr(
                Opcode::Lir,
                vec![
                    Operand::Register(2),
                    Operand::Label(".__INNER_FUNC_LABELtick_draw".to_string()),
                ],
            ),
        ]
    );
}

#[test]
fn whole_pipeline() {
    let module = TopLvl {
        functions: vec![(
            "f".to_string(),
            vec![
                FuncBody::Label("again".to_string()),
                instr(Opcode::Dec, vec![Operand::Register(1)]),
                instr(
                    Opcode::Brc,
                    vec![Operand::Condition(Condition::Neq), Operand::Label("again".to_string())],
                ),
                instr(Opcode::Ret, vec![]),
            ],
        )],
        instrs: vec![
            instr(Opcode::Lir, vec![Operand::Register(1), Operand::Immediate(3)]),
            instr(Opcode::Cal, vec![Operand::Label("f".to_string())]),
        ],
    };
    let bytes = assemble(lower_labels(mangle(module)).unwrap()).unwrap();
    assert_eq!(
        bytes,
        vec![0b001_01111, 3, 20, 5, 28, 0b001_00010, 0b011_10110, 0, 5, 21]
    );
}

#[test]
fn top_level_elements_hold_their_parts() {
    let f = TopLvlEnum::Function("f".to_string(), vec![instr(Opcode::Ret, vec![])]);
    let i = TopLvlEnum::Instruction(instr(Opcode::Nop, vec![]));
    assert_eq!(f.clone(), f);
    assert_ne!(f, i);
    match i {
        TopLvlEnum::Instruction(b) => assert_eq!(b, instr(Opcode::Nop, vec![])),
        TopLvlEnum::Function(_, _) => panic!("an instruction was made"),
    }
}
