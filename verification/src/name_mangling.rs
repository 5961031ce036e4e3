//! Name mangling: from a source file with named functions to one flat
//! program.
//!
//! The items outside any function come first, then an instruction that
//! halts, then every function in turn: a label marker with the function's
//! name, and its instructions and label markers. Inside a function every
//! label, marker or operand, gets a name of its own that is made of the
//! function's name and the label's. Data inside a function is left out.

use vstd::prelude::*;
use vstd::string::StringExecFns;
use crate::ast::{
    FuncBody, FuncBodyView, Instruction, InstructionView, Opcode, Operand, OperandView, TopLvl,
    TopLvlView,
};

verus! {

/// The name that the label `label` has inside the function `func`.
pub open spec fn inner_label(func: Seq<char>, label: Seq<char>) -> Seq<char> {
    ".__INNER_FUNC_LABEL"@ + func + "_"@ + label
}

/// An operand of the function `func`, a label with its inner name.
pub open spec fn mangle_operand(func: Seq<char>, o: OperandView) -> OperandView {
    match o {
        OperandView::Label(l) => OperandView::Label(inner_label(func, l)),
        _ => o,
    }
}

/// What an item of the function `func` becomes: an instruction with every
/// label operand renamed, a label marker with its inner name, and nothing
/// for data.
pub open spec fn mangle_item(func: Seq<char>, b: FuncBodyView) -> Seq<FuncBodyView> {
    match b {
        FuncBodyView::Instruction(i) => seq![
            FuncBodyView::Instruction(
                InstructionView {
                    opcode: i.opcode,
                    operands: i.operands.map_values(|o: OperandView| mangle_operand(func, o)),
                },
            ),
        ],
        FuncBodyView::Label(l) => seq![FuncBodyView::Label(inner_label(func, l))],
        FuncBodyView::Data(_) => Seq::empty(),
    }
}

/// What the items of the function `func` become, in their order.
pub open spec fn mangle_body(func: Seq<char>, body: Seq<FuncBodyView>) -> Seq<FuncBodyView>
    decreases body.len(),
{
    if body.len() == 0 {
        Seq::empty()
    } else {
        mangle_body(func, body.drop_last()) + mangle_item(func, body.last())
    }
}

/// What the functions become, in their order: for each a marker with its
/// name, then its items.
pub open spec fn mangle_functions(functions: Seq<(Seq<char>, Seq<FuncBodyView>)>) -> Seq<
    FuncBodyView,
>
    decreases functions.len(),
{
    if functions.len() == 0 {
        Seq::empty()
    } else {
        let f = functions.last();
        mangle_functions(functions.drop_last()).push(FuncBodyView::Label(f.0)) + mangle_body(
            f.0,
            f.1,
        )
    }
}

/// The instruction that halts, without operands.
pub open spec fn halt() -> FuncBodyView {
    FuncBodyView::Instruction(InstructionView { opcode: Opcode::Hlt, operands: Seq::empty() })
}

/// The flat program of a source file.
pub open spec fn mangled(module: TopLvlView) -> Seq<FuncBodyView> {
    module.instrs.push(halt()) + mangle_functions(module.functions)
}

/// Returns the name that the label `label` has inside the function `func`.
pub fn make_inner_label(func: &String, label: &String) -> (s: String)
    ensures
        s@ == inner_label(func@, label@),
{
    let mut s = String::from_str(".__INNER_FUNC_LABEL");
    s.append(func.as_str());
    s.append("_");
    s.append(label.as_str());
    s
}

/// Returns the instruction with every label operand renamed for the
/// function `func`.
fn mangle_instruction(func: &String, instr: &Instruction) -> (r: Instruction)
    ensures
        mangle_item(func@, FuncBodyView::Instruction(instr@)) == seq![
            FuncBodyView::Instruction(r@),
        ],
{
    let ghost ops = instr@.operands;
    let ghost renamed = ops.map_values(|o: OperandView| mangle_operand(func@, o));
    let mut operands: Vec<Operand> = Vec::new();
    let mut k: usize = 0;
    while k < instr.operands.len()
        invariant
            k <= instr.operands.len(),
            ops == instr@.operands,
            renamed == ops.map_values(|o: OperandView| mangle_operand(func@, o)),
            operands.deep_view() == renamed.take(k as int),
        decreases instr.operands.len() - k,
    {
        let ghost before = operands.deep_view();
        let operand = match &instr.operands[k] {
            Operand::Immediate(v) => Operand::Immediate(*v),
            Operand::Condition(c) => Operand::Condition(*c),
            Operand::Register(r) => Operand::Register(*r),
            Operand::Address(a) => Operand::Address(*a),
            Operand::Label(l) => Operand::Label(make_inner_label(func, l)),
        };
        assert(operand@ == mangle_operand(func@, instr.operands[k as int]@));
        operands.push(operand);
        proof {
            assert(ops[k as int] == instr.operands[k as int]@);
            assert(operands.deep_view() =~= before.push(operand@));
            assert(operands.deep_view() =~= renamed.take(k + 1));
        }
        k += 1;
    }
    assert(renamed.take(k as int) =~= renamed);
    Instruction { opcode: instr.opcode, operands }
}

/// Flattens a source file into one program.
pub fn mangle(module: TopLvl) -> (ret: Vec<FuncBody>)
    ensures
        ret.deep_view() == mangled(module@),
{
    let ghost functions = module@.functions;
    let ghost instrs = module@.instrs;
    let TopLvl { functions: funcs, instrs: mut ret } = module;
    let ghost before_halt = ret.deep_view();
    let stop = FuncBody::Instruction(Instruction { opcode: Opcode::Hlt, operands: Vec::new() });
    assert(stop@.arrow_Instruction_0().operands =~= Seq::empty());
    ret.push(stop);
    assert(ret.deep_view() =~= instrs.push(halt()));
    let mut f: usize = 0;
    assert(functions.take(0).len() == 0);
    while f < funcs.len()
        invariant
            f <= funcs.len(),
            functions == funcs.deep_view(),
            ret.deep_view() == instrs.push(halt()) + mangle_functions(functions.take(f as int)),
        decreases funcs.len() - f,
    {
        let name = &funcs[f].0;
        let body = &funcs[f].1;
        let ghost start = ret.deep_view();
        proof {
            assert(functions.take(f + 1).drop_last() =~= functions.take(f as int));
            assert(functions.take(f + 1).last() == (name@, body.deep_view()));
        }
        let marker = FuncBody::Label(name.clone());
        ret.push(marker);
        assert(ret.deep_view() =~= start.push(FuncBodyView::Label(name@)));
        let ghost items = body.deep_view();
        let ghost head = ret.deep_view();
        let mut k: usize = 0;
        assert(items.take(0).len() == 0);
        while k < body.len()
            invariant
                k <= body.len(),
                items == body.deep_view(),
                ret.deep_view() == head + mangle_body(name@, items.take(k as int)),
            decreases body.len() - k,
        {
            let ghost before = ret.deep_view();
            proof {
                assert(items.take(k + 1).drop_last() =~= items.take(k as int));
                assert(items.take(k + 1).last() == body[k as int]@);
            }
            match &body[k] {
                FuncBody::Instruction(instr) => {
                    let item = FuncBody::Instruction(mangle_instruction(name, instr));
                    ret.push(item);
                    assert(ret.deep_view() =~= before.push(item@));
                },
                FuncBody::Label(l) => {
                    let item = FuncBody::Label(make_inner_label(name, l));
                    ret.push(item);
                    assert(ret.deep_view() =~= before.push(item@));
                },
                FuncBody::Data(_) => {},
            }
            assert(ret.deep_view() =~= head + mangle_body(name@, items.take(k + 1)));
            k += 1;
        }
        assert(items.take(k as int) =~= items);
        assert(ret.deep_view() =~= instrs.push(halt()) + mangle_functions(
            functions.take(f + 1),
        ));
        f += 1;
    }
    assert(functions.take(f as int) =~= functions);
    ret
}

} // verus!
