//! The vocabulary of the instruction set: opcodes, conditions, operands,
//! instructions and program items, each with its mathematical model.

use vstd::prelude::*;

verus! {

/// The operations of the machine. The numeric code of an opcode is its
/// position in this list, starting at zero.
#[derive(Debug, Clone, Copy, PartialEq, Eq, Structural)]
pub enum Opcode {
    Nop,
    Inc,
    Dec,
    Add,
    Adr,
    Neg,
    Sub,
    EMPTY,
    Cmp,
    Bor,
    And,
    Xor,
    Bsl,
    Bsr,
    Lia,
    Lir,
    Rst,
    Rld,
    Mst,
    Mld,
    Cal,
    Ret,
    Brc,
    Jid,
    Psh,
    Pop,
    Pst,
    Pld,
    Hlt,
    Ics,
}

/// The conditions of the conditional branch. The numeric code of a condition
/// is its position in this list, starting at zero.
#[derive(Debug, Clone, Copy, PartialEq, Eq, Structural)]
pub enum Condition {
    Jmp,
    Even,
    Eq,
    Neq,
    Gt,
    Lt,
    Gteq,
    Lteq,
}

/// One operand of an instruction.
#[derive(Debug, Clone, PartialEq, Eq)]
pub enum Operand {
    /// A literal byte.
    Immediate(u8),
    /// A branch condition.
    Condition(Condition),
    /// A symbolic address, present only until labels are lowered.
    Label(String),
    /// A register index.
    Register(u8),
    /// A port or memory bank selector.
    Address(u8),
}

/// An opcode with its operands in source order.
#[derive(Debug, Clone, PartialEq, Eq)]
pub struct Instruction {
    pub opcode: Opcode,
    pub operands: Vec<Operand>,
}

/// One item of a flat program.
#[derive(Debug, Clone, PartialEq, Eq)]
pub enum FuncBody {
    Instruction(Instruction),
    /// A named marker of no width that stands for the address of the next byte.
    Label(String),
    /// Raw bytes that are emitted as they are.
    Data(Vec<u8>),
}

/// A parsed source file: named functions and the items outside any function.
#[derive(Debug, Clone, PartialEq, Eq)]
pub struct TopLvl {
    pub functions: Vec<(String, Vec<FuncBody>)>,
    pub instrs: Vec<FuncBody>,
}

/// One top-level element of a source file, as the grammar produces it.
#[derive(Debug, Clone, PartialEq, Eq)]
pub enum TopLvlEnum {
    Function(String, Vec<FuncBody>),
    Instruction(FuncBody),
}

/// Model of an [`Operand`]: label names are sequences of characters.
pub enum OperandView {
    Immediate(u8),
    Condition(Condition),
    Label(Seq<char>),
    Register(u8),
    Address(u8),
}

/// Model of an [`Instruction`].
pub struct InstructionView {
    pub opcode: Opcode,
    pub operands: Seq<OperandView>,
}

/// Model of a [`FuncBody`].
pub enum FuncBodyView {
    Instruction(InstructionView),
    Label(Seq<char>),
    Data(Seq<u8>),
}

/// Model of a [`TopLvl`].
pub struct TopLvlView {
    pub functions: Seq<(Seq<char>, Seq<FuncBodyView>)>,
    pub instrs: Seq<FuncBodyView>,
}

impl View for Operand {
    type V = OperandView;

    open spec fn view(&self) -> OperandView {
        match *self {
            Operand::Immediate(v) => OperandView::Immediate(v),
            Operand::Condition(c) => OperandView::Condition(c),
            Operand::Label(l) => OperandView::Label(l@),
            Operand::Register(r) => OperandView::Register(r),
            Operand::Address(a) => OperandView::Address(a),
        }
    }
}

impl DeepView for Operand {
    type V = OperandView;

    open spec fn deep_view(&self) -> OperandView {
        self@
    }
}

impl View for Instruction {
    type V = InstructionView;

    open spec fn view(&self) -> InstructionView {
        InstructionView { opcode: self.opcode, operands: self.operands.deep_view() }
    }
}

impl DeepView for Instruction {
    type V = InstructionView;

    open spec fn deep_view(&self) -> InstructionView {
        self@
    }
}

impl View for FuncBody {
    type V = FuncBodyView;

    open spec fn view(&self) -> FuncBodyView {
        match *self {
            FuncBody::Instruction(i) => FuncBodyView::Instruction(i@),
            FuncBody::Label(l) => FuncBodyView::Label(l@),
            FuncBody::Data(d) => FuncBodyView::Data(d@),
        }
    }
}

impl DeepView for FuncBody {
    type V = FuncBodyView;

    open spec fn deep_view(&self) -> FuncBodyView {
        self@
    }
}

impl View for TopLvl {
    type V = TopLvlView;

    open spec fn view(&self) -> TopLvlView {
        TopLvlView { functions: self.functions.deep_view(), instrs: self.instrs.deep_view() }
    }
}

impl Opcode {
    /// The numeric code of the opcode.
    pub open spec fn spec_code(self) -> u8 {
        match self {
            Opcode::Nop => 0,
            Opcode::Inc => 1,
            Opcode::Dec => 2,
            Opcode::Add => 3,
            Opcode::Adr => 4,
            Opcode::Neg => 5,
            Opcode::Sub => 6,
            Opcode::EMPTY => 7,
            Opcode::Cmp => 8,
            Opcode::Bor => 9,
            Opcode::And => 10,
            Opcode::Xor => 11,
            Opcode::Bsl => 12,
            Opcode::Bsr => 13,
            Opcode::Lia => 14,
            Opcode::Lir => 15,
            Opcode::Rst => 16,
            Opcode::Rld => 17,
            Opcode::Mst => 18,
            Opcode::Mld => 19,
            Opcode::Cal => 20,
            Opcode::Ret => 21,
            Opcode::Brc => 22,
            Opcode::Jid => 23,
            Opcode::Psh => 24,
            Opcode::Pop => 25,
            Opcode::Pst => 26,
            Opcode::Pld => 27,
            Opcode::Hlt => 28,
            Opcode::Ics => 29,
        }
    }

    /// The opcode that a numeric code stands for, if there is one.
    pub open spec fn spec_from_code(code: u8) -> Option<Opcode> {
        if code == 0 {
            Some(Opcode::Nop)
        } else if code == 1 {
            Some(Opcode::Inc)
        } else if code == 2 {
            Some(Opcode::Dec)
        } else if code == 3 {
            Some(Opcode::Add)
        } else if code == 4 {
            Some(Opcode::Adr)
        } else if code == 5 {
            Some(Opcode::Neg)
        } else if code == 6 {
            Some(Opcode::Sub)
        } else if code == 7 {
            Some(Opcode::EMPTY)
        } else if code == 8 {
            Some(Opcode::Cmp)
        } else if code == 9 {
            Some(Opcode::Bor)
        } else if code == 10 {
            Some(Opcode::And)
        } else if code == 11 {
            Some(Opcode::Xor)
        } else if code == 12 {
            Some(Opcode::Bsl)
        } else if code == 13 {
            Some(Opcode::Bsr)
        } else if code == 14 {
            Some(Opcode::Lia)
        } else if code == 15 {
            Some(Opcode::Lir)
        } else if code == 16 {
            Some(Opcode::Rst)
        } else if code == 17 {
            Some(Opcode::Rld)
        } else if code == 18 {
            Some(Opcode::Mst)
        } else if code == 19 {
            Some(Opcode::Mld)
        } else if code == 20 {
            Some(Opcode::Cal)
        } else if code == 21 {
            Some(Opcode::Ret)
        } else if code == 22 {
            Some(Opcode::Brc)
        } else if code == 23 {
            Some(Opcode::Jid)
        } else if code == 24 {
            Some(Opcode::Psh)
        } else if code == 25 {
            Some(Opcode::Pop)
        } else if code == 26 {
            Some(Opcode::Pst)
        } else if code == 27 {
            Some(Opcode::Pld)
        } else if code == 28 {
            Some(Opcode::Hlt)
        } else if code == 29 {
            Some(Opcode::Ics)
        } else {
            None
        }
    }

    /// The mnemonic: the opcode's name in lower case.
    pub open spec fn spec_mnemonic(self) -> Seq<char> {
        match self {
            Opcode::Nop => "nop"@,
            Opcode::Inc => "inc"@,
            Opcode::Dec => "dec"@,
            Opcode::Add => "add"@,
            Opcode::Adr => "adr"@,
            Opcode::Neg => "neg"@,
            Opcode::Sub => "sub"@,
            Opcode::EMPTY => "empty"@,
            Opcode::Cmp => "cmp"@,
            Opcode::Bor => "bor"@,
            Opcode::And => "and"@,
            Opcode::Xor => "xor"@,
            Opcode::Bsl => "bsl"@,
            Opcode::Bsr => "bsr"@,
            Opcode::Lia => "lia"@,
            Opcode::Lir => "lir"@,
            Opcode::Rst => "rst"@,
            Opcode::Rld => "rld"@,
            Opcode::Mst => "mst"@,
            Opcode::Mld => "mld"@,
            Opcode::Cal => "cal"@,
            Opcode::Ret => "ret"@,
            Opcode::Brc => "brc"@,
            Opcode::Jid => "jid"@,
            Opcode::Psh => "psh"@,
            Opcode::Pop => "pop"@,
            Opcode::Pst => "pst"@,
            Opcode::Pld => "pld"@,
            Opcode::Hlt => "hlt"@,
            Opcode::Ics => "ics"@,
        }
    }

    /// Returns the numeric code of the opcode, a number below 30.
    pub fn code(self) -> (c: u8)
        ensures
            c == self.spec_code(),
            c < 30,
    {
        match self {
            Opcode::Nop => 0,
            Opcode::Inc => 1,
            Opcode::Dec => 2,
            Opcode::Add => 3,
            Opcode::Adr => 4,
            Opcode::Neg => 5,
            Opcode::Sub => 6,
            Opcode::EMPTY => 7,
            Opcode::Cmp => 8,
            Opcode::Bor => 9,
            Opcode::And => 10,
            Opcode::Xor => 11,
            Opcode::Bsl => 12,
            Opcode::Bsr => 13,
            Opcode::Lia => 14,
            Opcode::Lir => 15,
            Opcode::Rst => 16,
            Opcode::Rld => 17,
            Opcode::Mst => 18,
            Opcode::Mld => 19,
            Opcode::Cal => 20,
            Opcode::Ret => 21,
            Opcode::Brc => 22,
            Opcode::Jid => 23,
            Opcode::Psh => 24,
            Opcode::Pop => 25,
            Opcode::Pst => 26,
            Opcode::Pld => 27,
            Opcode::Hlt => 28,
            Opcode::Ics => 29,
        }
    }

    /// Returns the opcode with the given numeric code, or `None` where no
    /// opcode has that code (30 and above).
    pub fn from_code(code: u8) -> (r: Option<Opcode>)
        ensures
            r == Opcode::spec_from_code(code),
            r is Some <==> code < 30,
            r is Some ==> r->0.spec_code() == code,
    {
        match code {
            0 => Some(Opcode::Nop),
            1 => Some(Opcode::Inc),
            2 => Some(Opcode::Dec),
            3 => Some(Opcode::Add),
            4 => Some(Opcode::Adr),
            5 => Some(Opcode::Neg),
            6 => Some(Opcode::Sub),
            7 => Some(Opcode::EMPTY),
            8 => Some(Opcode::Cmp),
            9 => Some(Opcode::Bor),
            10 => Some(Opcode::And),
            11 => Some(Opcode::Xor),
            12 => Some(Opcode::Bsl),
            13 => Some(Opcode::Bsr),
            14 => Some(Opcode::Lia),
            15 => Some(Opcode::Lir),
            16 => Some(Opcode::Rst),
            17 => Some(Opcode::Rld),
            18 => Some(Opcode::Mst),
            19 => Some(Opcode::Mld),
            20 => Some(Opcode::Cal),
            21 => Some(Opcode::Ret),
            22 => Some(Opcode::Brc),
            23 => Some(Opcode::Jid),
            24 => Some(Opcode::Psh),
            25 => Some(Opcode::Pop),
            26 => Some(Opcode::Pst),
            27 => Some(Opcode::Pld),
            28 => Some(Opcode::Hlt),
            29 => Some(Opcode::Ics),
            _ => None,
        }
    }

    /// Returns the mnemonic of the opcode.
    pub fn mnemonic(self) -> (s: &'static str)
        ensures
            s@ == self.spec_mnemonic(),
    {
        match self {
            Opcode::Nop => "nop",
            Opcode::Inc => "inc",
            Opcode::Dec => "dec",
            Opcode::Add => "add",
            Opcode::Adr => "adr",
            Opcode::Neg => "neg",
            Opcode::Sub => "sub",
            Opcode::EMPTY => "empty",
            Opcode::Cmp => "cmp",
            Opcode::Bor => "bor",
            Opcode::And => "and",
            Opcode::Xor => "xor",
            Opcode::Bsl => "bsl",
            Opcode::Bsr => "bsr",
            Opcode::Lia => "lia",
            Opcode::Lir => "lir",
            Opcode::Rst => "rst",
            Opcode::Rld => "rld",
            Opcode::Mst => "mst",
            Opcode::Mld => "mld",
            Opcode::Cal => "cal",
            Opcode::Ret => "ret",
            Opcode::Brc => "brc",
            Opcode::Jid => "jid",
            Opcode::Psh => "psh",
            Opcode::Pop => "pop",
            Opcode::Pst => "pst",
            Opcode::Pld => "pld",
            Opcode::Hlt => "hlt",
            Opcode::Ics => "ics",
        }
    }
}

impl Condition {
    /// The numeric code of the condition.
    pub open spec fn spec_code(self) -> u8 {
        match self {
            Condition::Jmp => 0,
            Condition::Even => 1,
            Condition::Eq => 2,
            Condition::Neq => 3,
            Condition::Gt => 4,
            Condition::Lt => 5,
            Condition::Gteq => 6,
            Condition::Lteq => 7,
        }
    }

    /// The condition that a three-bit field stands for.
    pub open spec fn spec_from_code(code: u8) -> Condition {
        if code == 0 {
            Condition::Jmp
        } else if code == 1 {
            Condition::Even
        } else if code == 2 {
            Condition::Eq
        } else if code == 3 {
            Condition::Neq
        } else if code == 4 {
            Condition::Gt
        } else if code == 5 {
            Condition::Lt
        } else if code == 6 {
            Condition::Gteq
        } else {
            Condition::Lteq
        }
    }

    /// The keyword: the condition's name in lower case.
    pub open spec fn spec_mnemonic(self) -> Seq<char> {
        match self {
            Condition::Jmp => "jmp"@,
            Condition::Even => "even"@,
            Condition::Eq => "eq"@,
            Condition::Neq => "neq"@,
            Condition::Gt => "gt"@,
            Condition::Lt => "lt"@,
            Condition::Gteq => "gteq"@,
            Condition::Lteq => "lteq"@,
        }
    }

    /// Returns the numeric code of the condition, a number below 8.
    pub fn code(self) -> (c: u8)
        ensures
            c == self.spec_code(),
            c < 8,
    {
        match self {
            Condition::Jmp => 0,
            Condition::Even => 1,
            Condition::Eq => 2,
            Condition::Neq => 3,
            Condition::Gt => 4,
            Condition::Lt => 5,
            Condition::Gteq => 6,
            Condition::Lteq => 7,
        }
    }

    /// Returns the condition with the given numeric code.
    pub fn from_code(code: u8) -> (c: Condition)
        requires
            code < 8,
        ensures
            c == Condition::spec_from_code(code),
            c.spec_code() == code,
    {
        match code {
            0 => Condition::Jmp,
            1 => Condition::Even,
            2 => Condition::Eq,
            3 => Condition::Neq,
            4 => Condition::Gt,
            5 => Condition::Lt,
            6 => Condition::Gteq,
            _ => Condition::Lteq,
        }
    }

    /// Returns the keyword of the condition.
    pub fn mnemonic(self) -> (s: &'static str)
        ensures
            s@ == self.spec_mnemonic(),
    {
        match self {
            Condition::Jmp => "jmp",
            Condition::Even => "even",
            Condition::Eq => "eq",
            Condition::Neq => "neq",
            Condition::Gt => "gt",
            Condition::Lt => "lt",
            Condition::Gteq => "gteq",
            Condition::Lteq => "lteq",
        }
    }
}

/// Every opcode is found again from its numeric code.
pub proof fn lemma_opcode_code_inverse(op: Opcode)
    ensures
        op.spec_code() < 30,
        Opcode::spec_from_code(op.spec_code()) == Some(op),
{
}

/// Every condition is found again from its numeric code.
pub proof fn lemma_condition_code_inverse(c: Condition)
    ensures
        c.spec_code() < 8,
        Condition::spec_from_code(c.spec_code()) == c,
{
}

} // verus!
