//! The text of each entity of the instruction set.
//!
//! An opcode or a condition is its name in lower case, a register `r` and
//! its index, an address `$` and its number, an immediate a hexadecimal
//! number behind `0x`, and a label its bare name.

use vstd::prelude::*;
use vstd::string::StringExecFns;
use crate::ast::{
    Condition, FuncBody, FuncBodyView, Instruction, InstructionView, Opcode, Operand,
    OperandView,
};
use crate::text::{decimal, join, prefixed_hex, push_decimal, push_prefixed_hex};

verus! {

/// The text of an operand.
pub open spec fn operand_text(o: OperandView) -> Seq<char> {
    match o {
        OperandView::Address(a) => "$"@ + decimal(a as nat),
        OperandView::Condition(c) => c.spec_mnemonic(),
        OperandView::Immediate(v) => prefixed_hex(v as nat),
        OperandView::Register(r) => "r"@ + decimal(r as nat),
        OperandView::Label(l) => l,
    }
}

/// The texts of the operands with one blank between neighbours.
pub open spec fn operands_text(operands: Seq<OperandView>) -> Seq<char> {
    join(operands.map_values(|o: OperandView| operand_text(o)), " "@)
}

/// The text of an instruction: the mnemonic, a blank, and the operands with
/// one blank between neighbours. The blank after the mnemonic is there even
/// where no operand follows.
pub open spec fn instruction_text(i: InstructionView) -> Seq<char> {
    i.opcode.spec_mnemonic() + " "@ + operands_text(i.operands)
}

/// The text of an instruction as a listing shows it: the text of the
/// instruction, but without the blank after a mnemonic that no operand
/// follows.
pub open spec fn listing_text(i: InstructionView) -> Seq<char> {
    if i.operands.len() == 0 {
        i.opcode.spec_mnemonic()
    } else {
        instruction_text(i)
    }
}

/// The text of a run of bytes: their decimal numbers between square
/// brackets, with a comma and a blank between neighbours.
pub open spec fn bytes_text(bytes: Seq<u8>) -> Seq<char> {
    "["@ + join(bytes.map_values(|b: u8| decimal(b as nat)), ", "@) + "]"@
}

/// The text of a program item: that of its instruction or of its bytes, or
/// the bare name of its label.
pub open spec fn item_text(b: FuncBodyView) -> Seq<char> {
    match b {
        FuncBodyView::Instruction(i) => instruction_text(i),
        FuncBodyView::Label(l) => l,
        FuncBodyView::Data(d) => bytes_text(d),
    }
}

/// Appends the text of an operand to `out`.
pub fn push_operand(out: &mut String, o: &Operand)
    ensures
        final(out)@ == old(out)@ + operand_text(o@),
{
    match o {
        Operand::Address(a) => {
            out.append("$");
            push_decimal(out, *a as usize);
            assert(out@ =~= old(out)@ + operand_text(o@));
        },
        Operand::Condition(c) => {
            out.append(c.mnemonic());
        },
        Operand::Immediate(v) => {
            push_prefixed_hex(out, *v as usize);
        },
        Operand::Register(r) => {
            out.append("r");
            push_decimal(out, *r as usize);
            assert(out@ =~= old(out)@ + operand_text(o@));
        },
        Operand::Label(l) => {
            out.append(l.as_str());
        },
    }
}

impl Opcode {
    /// Returns the text of the opcode: its mnemonic.
    pub fn to_text(&self) -> (s: String)
        ensures
            s@ == self.spec_mnemonic(),
    {
        String::from_str(self.mnemonic())
    }
}

impl Condition {
    /// Returns the text of the condition: its keyword.
    pub fn to_text(&self) -> (s: String)
        ensures
            s@ == self.spec_mnemonic(),
    {
        String::from_str(self.mnemonic())
    }
}

impl Operand {
    /// Returns the text of the operand.
    pub fn to_text(&self) -> (s: String)
        ensures
            s@ == operand_text(self@),
    {
        let mut s = String::new();
        push_operand(&mut s, self);
        assert(s@ =~= operand_text(self@));
        s
    }
}

impl Instruction {
    /// Returns the text of the instruction.
    pub fn to_text(&self) -> (s: String)
        ensures
            s@ == instruction_text(self@),
    {
        let mut s = String::from_str(self.opcode.mnemonic());
        s.append(" ");
        let ghost head = s@;
        let ghost texts = self@.operands.map_values(|o: OperandView| operand_text(o));
        let mut k: usize = 0;
        while k < self.operands.len()
            invariant
                k <= self.operands.len(),
                head == self.opcode.spec_mnemonic() + " "@,
                texts == self@.operands.map_values(|o: OperandView| operand_text(o)),
                s@ == head + join(texts.take(k as int), " "@),
            decreases self.operands.len() - k,
        {
            if k > 0 {
                s.append(" ");
            }
            push_operand(&mut s, &self.operands[k]);
            proof {
                let next = texts.take(k + 1);
                assert(next.drop_last() =~= texts.take(k as int));
                assert(next.last() == operand_text(self.operands[k as int]@));
                assert(s@ =~= head + join(next, " "@));
            }
            k += 1;
        }
        assert(texts.take(k as int) =~= texts);
        s
    }
}

/// Returns the text of a run of bytes.
pub fn bytes_to_text(bytes: &Vec<u8>) -> (s: String)
    ensures
        s@ == bytes_text(bytes@),
{
    let mut s = String::from_str("[");
    let ghost texts = bytes@.map_values(|b: u8| decimal(b as nat));
    let mut k: usize = 0;
    while k < bytes.len()
        invariant
            k <= bytes.len(),
            texts == bytes@.map_values(|b: u8| decimal(b as nat)),
            s@ == "["@ + join(texts.take(k as int), ", "@),
        decreases bytes.len() - k,
    {
        if k > 0 {
            s.append(", ");
        }
        push_decimal(&mut s, bytes[k] as usize);
        proof {
            let next = texts.take(k + 1);
            assert(next.drop_last() =~= texts.take(k as int));
            assert(s@ =~= "["@ + join(next, ", "@));
        }
        k += 1;
    }
    assert(texts.take(k as int) =~= texts);
    s.append("]");
    s
}

impl FuncBody {
    /// Returns the text of the item.
    pub fn to_text(&self) -> (s: String)
        ensures
            s@ == item_text(self@),
    {
        match self {
            FuncBody::Instruction(i) => i.to_text(),
            FuncBody::Label(l) => l.clone(),
            FuncBody::Data(d) => bytes_to_text(d),
        }
    }
}

} // verus!
