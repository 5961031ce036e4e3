//! The label pass: from symbolic labels to byte addresses.
//!
//! A first walk gives every label marker the address of the next byte: the
//! sum of the sizes of the items before it. A second walk drops the
//! markers and replaces every label operand by an immediate that holds the
//! address of its label. A name with two markers, an operand whose name has
//! no marker, and an operand whose label lies beyond the last address that
//! an immediate can hold are errors.

use vstd::prelude::*;
use vstd::hash_map::StringHashMap;
use crate::ast::{FuncBody, FuncBodyView, Instruction, InstructionView, Opcode, Operand, OperandView};
use crate::layout::{extra_bytes, footprint, ADDRESS_SPACE, BRANCH_FOOTPRINT};

verus! {

/// Why the labels of a program cannot be lowered.
#[derive(Debug, Clone, PartialEq, Eq)]
pub enum ResolveError {
    /// An operand names a label that no marker defines.
    UndefinedLabel(String),
    /// A second marker defines a label of this name.
    DuplicateLabel(String),
    /// An operand names a label whose address no immediate can hold.
    AddressOutOfRange(String),
}

/// Model of a [`ResolveError`].
pub enum ResolveErrorView {
    UndefinedLabel(Seq<char>),
    DuplicateLabel(Seq<char>),
    AddressOutOfRange(Seq<char>),
}

impl View for ResolveError {
    type V = ResolveErrorView;

    open spec fn view(&self) -> ResolveErrorView {
        match *self {
            ResolveError::UndefinedLabel(l) => ResolveErrorView::UndefinedLabel(l@),
            ResolveError::DuplicateLabel(l) => ResolveErrorView::DuplicateLabel(l@),
            ResolveError::AddressOutOfRange(l) => ResolveErrorView::AddressOutOfRange(l@),
        }
    }
}

/// The number of bytes that an item occupies once encoded: the footprint of
/// an instruction, the length of data, nothing for a label marker.
pub open spec fn item_size(b: FuncBodyView) -> nat {
    match b {
        FuncBodyView::Instruction(i) => footprint(i),
        FuncBodyView::Label(_) => 0,
        FuncBodyView::Data(d) => d.len(),
    }
}

/// The number of bytes that a program occupies once encoded.
pub open spec fn program_size(items: Seq<FuncBodyView>) -> nat
    decreases items.len(),
{
    if items.len() == 0 {
        0
    } else {
        program_size(items.drop_last()) + item_size(items.last())
    }
}

/// The address of every label of a program: the size of the items before
/// its marker, or before the last of its markers where it has several.
pub open spec fn label_table(items: Seq<FuncBodyView>) -> Map<Seq<char>, nat>
    decreases items.len(),
{
    if items.len() == 0 {
        Map::empty()
    } else {
        let before = label_table(items.drop_last());
        match items.last() {
            FuncBodyView::Label(l) => before.insert(l, program_size(items.drop_last())),
            _ => before,
        }
    }
}

/// The name of the first marker whose label an earlier marker defines, if
/// there is one.
pub open spec fn first_duplicate(items: Seq<FuncBodyView>) -> Option<Seq<char>>
    decreases items.len(),
{
    if items.len() == 0 {
        None
    } else {
        match first_duplicate(items.drop_last()) {
            Some(l) => Some(l),
            None => match items.last() {
                FuncBodyView::Label(l) => if label_table(items.drop_last()).contains_key(l) {
                    Some(l)
                } else {
                    None
                },
                _ => None,
            },
        }
    }
}

/// What keeps an operand from being lowered, if anything does.
pub open spec fn operand_error(table: Map<Seq<char>, nat>, o: OperandView) -> Option<
    ResolveErrorView,
> {
    match o {
        OperandView::Label(l) => if !table.contains_key(l) {
            Some(ResolveErrorView::UndefinedLabel(l))
        } else if table[l] >= ADDRESS_SPACE {
            Some(ResolveErrorView::AddressOutOfRange(l))
        } else {
            None
        },
        _ => None,
    }
}

/// The error of the first operand that has one.
pub open spec fn operands_error(table: Map<Seq<char>, nat>, operands: Seq<OperandView>) -> Option<
    ResolveErrorView,
>
    decreases operands.len(),
{
    if operands.len() == 0 {
        None
    } else {
        match operands_error(table, operands.drop_last()) {
            Some(e) => Some(e),
            None => operand_error(table, operands.last()),
        }
    }
}

/// The error of the first operand, in program order, that has one.
pub open spec fn first_error(table: Map<Seq<char>, nat>, items: Seq<FuncBodyView>) -> Option<
    ResolveErrorView,
>
    decreases items.len(),
{
    if items.len() == 0 {
        None
    } else {
        match first_error(table, items.drop_last()) {
            Some(e) => Some(e),
            None => match items.last() {
                FuncBodyView::Instruction(i) => operands_error(table, i.operands),
                _ => None,
            },
        }
    }
}

/// An operand with its label replaced by the address of the label.
pub open spec fn lower_operand(table: Map<Seq<char>, nat>, o: OperandView) -> OperandView {
    match o {
        OperandView::Label(l) => OperandView::Immediate(table[l] as u8),
        _ => o,
    }
}

/// An instruction with every label operand replaced.
pub open spec fn lower_instruction(table: Map<Seq<char>, nat>, i: InstructionView) -> InstructionView {
    InstructionView {
        opcode: i.opcode,
        operands: i.operands.map_values(|o: OperandView| lower_operand(table, o)),
    }
}

/// A program without its label markers and with every label operand
/// replaced; data stays as it is.
pub open spec fn lower_items(table: Map<Seq<char>, nat>, items: Seq<FuncBodyView>) -> Seq<
    FuncBodyView,
>
    decreases items.len(),
{
    if items.len() == 0 {
        Seq::empty()
    } else {
        let before = lower_items(table, items.drop_last());
        match items.last() {
            FuncBodyView::Instruction(i) => before.push(
                FuncBodyView::Instruction(lower_instruction(table, i)),
            ),
            FuncBodyView::Label(_) => before,
            FuncBodyView::Data(d) => before.push(FuncBodyView::Data(d)),
        }
    }
}

/// What lowering the labels of a program gives: the first duplicate marker
/// as an error, else the error of the first operand that has one, else the
/// lowered program.
pub open spec fn resolve(items: Seq<FuncBodyView>) -> Result<Seq<FuncBodyView>, ResolveErrorView> {
    match first_duplicate(items) {
        Some(l) => Err(ResolveErrorView::DuplicateLabel(l)),
        None => match first_error(label_table(items), items) {
            Some(e) => Err(e),
            None => Ok(lower_items(label_table(items), items)),
        },
    }
}

/// A size as the walk keeps it: exact below the end of the address space,
/// and the end of the address space from there on.
spec fn capped(n: nat) -> nat {
    if n >= ADDRESS_SPACE {
        ADDRESS_SPACE as nat
    } else {
        n
    }
}

/// Returns the footprint of an instruction, capped.
fn instruction_size(instr: &Instruction) -> (n: usize)
    ensures
        n == capped(footprint(instr@)),
{
    if instr.opcode == Opcode::Brc {
        return BRANCH_FOOTPRINT;
    }
    let ghost ops = instr@.operands;
    let mut size: usize = 1;
    let mut k: usize = 0;
    assert(ops.take(0).len() == 0);
    while k < instr.operands.len()
        invariant
            k <= instr.operands.len(),
            ops == instr@.operands,
            size == capped(1 + extra_bytes(ops.take(k as int))),
        decreases instr.operands.len() - k,
    {
        proof {
            assert(ops.take(k + 1).drop_last() =~= ops.take(k as int));
            assert(ops.take(k + 1).last() == instr.operands[k as int]@);
        }
        match &instr.operands[k] {
            Operand::Immediate(_) | Operand::Address(_) | Operand::Label(_) => {
                if size < ADDRESS_SPACE {
                    size += 1;
                }
            },
            Operand::Register(_) | Operand::Condition(_) => {},
        }
        k += 1;
    }
    assert(ops.take(k as int) =~= ops);
    size
}

/// Returns the capped sum of two capped sizes.
fn add_capped(a: usize, b: usize) -> (n: usize)
    requires
        a <= ADDRESS_SPACE,
    ensures
        n == capped(a as nat + b as nat),
{
    if b >= ADDRESS_SPACE - a {
        ADDRESS_SPACE
    } else {
        a + b
    }
}

/// True where `table` holds the labels of `model`, each with its capped
/// address.
spec fn table_models(table: Map<Seq<char>, usize>, model: Map<Seq<char>, nat>) -> bool {
    &&& table.dom() =~= model.dom()
    &&& forall|l: Seq<char>| #[trigger]
        model.contains_key(l) ==> table[l] as nat == capped(model[l])
}

/// A duplicate that is the first among the leading items is the first
/// among all of them.
proof fn lemma_first_duplicate_stays(items: Seq<FuncBodyView>, k: int)
    requires
        0 <= k <= items.len(),
        first_duplicate(items.take(k)) is Some,
    ensures
        first_duplicate(items) == first_duplicate(items.take(k)),
    decreases items.len() - k,
{
    if k < items.len() {
        assert(items.take(k + 1).drop_last() =~= items.take(k));
        lemma_first_duplicate_stays(items, k + 1);
    } else {
        assert(items.take(k) =~= items);
    }
}

/// An error that is the first among the leading operands is the first among
/// all of them.
proof fn lemma_operands_error_stays(
    table: Map<Seq<char>, nat>,
    operands: Seq<OperandView>,
    k: int,
)
    requires
        0 <= k <= operands.len(),
        operands_error(table, operands.take(k)) is Some,
    ensures
        operands_error(table, operands) == operands_error(table, operands.take(k)),
    decreases operands.len() - k,
{
    if k < operands.len() {
        assert(operands.take(k + 1).drop_last() =~= operands.take(k));
        lemma_operands_error_stays(table, operands, k + 1);
    } else {
        assert(operands.take(k) =~= operands);
    }
}

/// An error that is the first among the leading items is the first among
/// all of them.
proof fn lemma_first_error_stays(table: Map<Seq<char>, nat>, items: Seq<FuncBodyView>, k: int)
    requires
        0 <= k <= items.len(),
        first_error(table, items.take(k)) is Some,
    ensures
        first_error(table, items) == first_error(table, items.take(k)),
    decreases items.len() - k,
{
    if k < items.len() {
        assert(items.take(k + 1).drop_last() =~= items.take(k));
        lemma_first_error_stays(table, items, k + 1);
    } else {
        assert(items.take(k) =~= items);
    }
}

/// Walks the program once and returns the address of every label, or the
/// name of the first duplicate marker.
fn collect_labels(module: &Vec<FuncBody>) -> (r: Result<StringHashMap<usize>, String>)
    ensures
        match r {
            Ok(table) => first_duplicate(module.deep_view()) is None && table_models(
                table@,
                label_table(module.deep_view()),
            ),
            Err(l) => first_duplicate(module.deep_view()) == Some(l@),
        },
{
    let ghost items = module.deep_view();
    let mut table: StringHashMap<usize> = StringHashMap::new();
    let mut pc: usize = 0;
    let mut k: usize = 0;
    assert(items.take(0).len() == 0);
    while k < module.len()
        invariant
            k <= module.len(),
            items == module.deep_view(),
            first_duplicate(items.take(k as int)) is None,
            table_models(table@, label_table(items.take(k as int))),
            pc == capped(program_size(items.take(k as int))),
        decreases module.len() - k,
    {
        proof {
            assert(items.take(k + 1).drop_last() =~= items.take(k as int));
            assert(items.take(k + 1).last() == module[k as int]@);
        }
        match &module[k] {
            FuncBody::Label(l) => {
                if table.contains_key(l.as_str()) {
                    proof {
                        lemma_first_duplicate_stays(items, k + 1);
                    }
                    return Err(l.clone());
                }
                table.insert(l.clone(), pc);
            },
            FuncBody::Instruction(i) => {
                let size = instruction_size(i);
                pc = add_capped(pc, size);
            },
            FuncBody::Data(d) => {
                pc = add_capped(pc, d.len());
            },
        }
        k += 1;
    }
    assert(items.take(k as int) =~= items);
    Ok(table)
}

/// Returns the instruction with every label operand replaced by the address
/// that `table` holds for it, or the error of the first operand that has
/// one.
fn lower_instruction_with(
    table: &StringHashMap<usize>,
    instr: &Instruction,
    Ghost(model): Ghost<Map<Seq<char>, nat>>,
) -> (r: Result<Instruction, ResolveError>)
    requires
        table_models(table@, model),
    ensures
        match r {
            Ok(lowered) => operands_error(model, instr@.operands) is None && lowered@
                == lower_instruction(model, instr@),
            Err(e) => operands_error(model, instr@.operands) == Some(e@),
        },
{
    let ghost ops = instr@.operands;
    let ghost lowered = ops.map_values(|o: OperandView| lower_operand(model, o));
    let mut operands: Vec<Operand> = Vec::new();
    let mut k: usize = 0;
    assert(ops.take(0).len() == 0);
    while k < instr.operands.len()
        invariant
            k <= instr.operands.len(),
            ops == instr@.operands,
            lowered == ops.map_values(|o: OperandView| lower_operand(model, o)),
            table_models(table@, model),
            operands_error(model, ops.take(k as int)) is None,
            operands.deep_view() == lowered.take(k as int),
        decreases instr.operands.len() - k,
    {
        proof {
            assert(ops.take(k + 1).drop_last() =~= ops.take(k as int));
            assert(ops.take(k + 1).last() == instr.operands[k as int]@);
        }
        let ghost before = operands.deep_view();
        let operand = match &instr.operands[k] {
            Operand::Immediate(v) => Operand::Immediate(*v),
            Operand::Condition(c) => Operand::Condition(*c),
            Operand::Register(r) => Operand::Register(*r),
            Operand::Address(a) => Operand::Address(*a),
            Operand::Label(l) => {
                match table.get(l.as_str()) {
                    None => {
                        proof {
                            lemma_operands_error_stays(model, ops, k + 1);
                        }
                        return Err(ResolveError::UndefinedLabel(l.clone()));
                    },
                    Some(address) => {
                        if *address >= ADDRESS_SPACE {
                            proof {
                                lemma_operands_error_stays(model, ops, k + 1);
                            }
                            return Err(ResolveError::AddressOutOfRange(l.clone()));
                        }
                        Operand::Immediate(*address as u8)
                    },
                }
            },
        };
        assert(operand@ == lower_operand(model, instr.operands[k as int]@));
        operands.push(operand);
        proof {
            assert(operands.deep_view() =~= before.push(operand@));
            assert(operands.deep_view() =~= lowered.take(k + 1));
        }
        k += 1;
    }
    assert(ops.take(k as int) =~= ops);
    assert(lowered.take(k as int) =~= lowered);
    Ok(Instruction { opcode: instr.opcode, operands })
}

/// Returns a copy of `bytes`.
fn copy_bytes(bytes: &Vec<u8>) -> (r: Vec<u8>)
    ensures
        r@ == bytes@,
{
    let mut r: Vec<u8> = Vec::new();
    let mut k: usize = 0;
    while k < bytes.len()
        invariant
            k <= bytes.len(),
            r@ == bytes@.take(k as int),
        decreases bytes.len() - k,
    {
        r.push(bytes[k]);
        assert(r@ =~= bytes@.take(k + 1));
        k += 1;
    }
    assert(bytes@.take(k as int) =~= bytes@);
    r
}

/// Replaces the labels of a program by their addresses.
///
/// The result is what [`resolve`] says of the program: without a duplicate
/// marker and without an operand in error, the program without its markers
/// and with an immediate for every label operand; else the first such
/// error, with the name of its label.
pub fn lower_labels(module: Vec<FuncBody>) -> (r: Result<Vec<FuncBody>, ResolveError>)
    ensures
        match r {
            Ok(lowered) => resolve(module.deep_view()) == Ok::<
                Seq<FuncBodyView>,
                ResolveErrorView,
            >(lowered.deep_view()),
            Err(e) => resolve(module.deep_view()) == Err::<Seq<FuncBodyView>, ResolveErrorView>(
                e@,
            ),
        },
{
    let ghost items = module.deep_view();
    let ghost model = label_table(items);
    let table = match collect_labels(&module) {
        Ok(table) => table,
        Err(l) => {
            return Err(ResolveError::DuplicateLabel(l));
        },
    };
    let mut ret: Vec<FuncBody> = Vec::new();
    let mut k: usize = 0;
    assert(items.take(0).len() == 0);
    while k < module.len()
        invariant
            k <= module.len(),
            items == module.deep_view(),
            model == label_table(items),
            first_duplicate(items) is None,
            table_models(table@, model),
            first_error(model, items.take(k as int)) is None,
            ret.deep_view() == lower_items(model, items.take(k as int)),
        decreases module.len() - k,
    {
        proof {
            assert(items.take(k + 1).drop_last() =~= items.take(k as int));
            assert(items.take(k + 1).last() == module[k as int]@);
        }
        let ghost before = ret.deep_view();
        match &module[k] {
            FuncBody::Label(_) => {},
            FuncBody::Instruction(i) => {
                match lower_instruction_with(&table, i, Ghost(model)) {
                    Ok(lowered) => {
                        let item = FuncBody::Instruction(lowered);
                        ret.push(item);
                        assert(ret.deep_view() =~= before.push(item@));
                    },
                    Err(e) => {
                        proof {
                            lemma_first_error_stays(model, items, k + 1);
                        }
                        return Err(e);
                    },
                }
            },
            FuncBody::Data(d) => {
                let item = FuncBody::Data(copy_bytes(d));
                ret.push(item);
                assert(ret.deep_view() =~= before.push(item@));
            },
        }
        k += 1;
    }
    assert(items.take(k as int) =~= items);
    Ok(ret)
}

} // verus!
